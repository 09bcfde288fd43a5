//! The webhook reconciler: for every change to a board/repository link it
//! decides which provider calls are needed and applies the matching store
//! mutation, keeping the shared-webhook invariant.
//!
//! Each operation is split in two. A `plan_*` function inspects the store
//! and names the provider calls to make: the embedding program performs
//! them (they are remote I/O) and feeds the result to the matching
//! `apply_*` function, which mutates the store. A webhook creation failure
//! simply means `apply_*` is never called, so no partial store mutation is
//! left behind; a webhook deletion failure is tolerated and changes
//! nothing, so `apply_*` takes no deletion outcome at all.

use vstd::prelude::*;

use crate::errors::GITrelloError;
use crate::gitrello_api::Permissions;
use crate::models::BoardRepository;
use crate::models::BoardRepositoryView;
use crate::models::GithubWebhookView;
use crate::models::NewBoardRepository;
use crate::models::NewGithubWebhook;
use crate::store::link_at;
use crate::store::LinkStore;
use crate::store::StoreView;

verus! {

/// A provider-side webhook that should be deleted, best-effort.
pub struct WebhookToDelete {
    pub repository_owner: String,
    pub repository_name: String,
    pub webhook_id: i64,
}

/// What a create-or-update operation requires of the provider and the
/// store. `CreateReuse` and `Repoint` with a reuse id need no provider
/// webhook creation; `CreateNew` and `Repoint` without one do. A `Some`
/// in `delete_old` names a webhook to delete best-effort.
pub enum UpsertPlan {
    Noop,
    CreateReuse { webhook_id: i64 },
    CreateNew,
    Repoint { delete_old: Option<WebhookToDelete>, reuse_webhook_id: Option<i64> },
}

/// What a link deletion requires of the provider: at most one best-effort
/// webhook deletion, owed exactly when the link is the last reference to
/// its repository's webhook.
pub struct DeletePlan {
    pub delete_webhook: Option<WebhookToDelete>,
}

/// True when the plan calls for a provider-side webhook creation.
pub open spec fn plan_needs_create(plan: UpsertPlan) -> bool {
    match plan {
        UpsertPlan::Noop => false,
        UpsertPlan::CreateReuse { .. } => false,
        UpsertPlan::CreateNew => true,
        UpsertPlan::Repoint { reuse_webhook_id, .. } => reuse_webhook_id is None,
    }
}

/// The unique correct plan for bringing `board_id` to `(owner, name)`:
///
/// - no link for the board and a webhook already at the repository: create
///   the link reusing that webhook id, no provider call;
/// - no link and no webhook there: create the link and a fresh webhook;
/// - a link already at `(owner, name)`: nothing to do;
/// - a link elsewhere: repoint it, deleting the old webhook exactly when
///   this link was its last reference, and reusing the webhook at the new
///   repository when one exists.
pub open spec fn upsert_plan_ok(
    s: StoreView,
    board_id: int,
    owner: Seq<char>,
    name: Seq<char>,
    plan: UpsertPlan,
) -> bool {
    if !s.has_link_for_board(board_id) {
        if s.hooks_at(owner, name).len() > 0 {
            plan matches UpsertPlan::CreateReuse { webhook_id } && webhook_id == s.hooks_at(
                owner,
                name,
            )[0].webhook_id
        } else {
            plan is CreateNew
        }
    } else {
        let link = s.link_for_board(board_id);
        if link.repository_owner == owner && link.repository_name == name {
            plan is Noop
        } else {
            plan matches UpsertPlan::Repoint { delete_old, reuse_webhook_id } && ({
                let old_hooks = s.hooks_at(link.repository_owner, link.repository_name);
                &&& (if old_hooks.len() == 1 {
                    delete_old matches Some(o) && o.repository_owner@ == link.repository_owner
                        && o.repository_name@ == link.repository_name && s.has_hook_for_link(
                        link.id,
                    ) && o.webhook_id == s.hook_for_link(link.id).webhook_id
                } else {
                    delete_old is None
                })
                &&& (if s.hooks_at(owner, name).len() > 0 {
                    reuse_webhook_id matches Some(w) && w == s.hooks_at(owner, name)[0].webhook_id
                } else {
                    reuse_webhook_id is None
                })
            })
        }
    }
}

/// Decide what a create-or-update of the link for `board_id` towards
/// `(repository_owner, repository_name)` needs. Fails with
/// `PermissionDenied` exactly when the permission service denied
/// mutation; otherwise the returned plan is the unique one
/// `upsert_plan_ok` admits.
pub fn plan_upsert(
    store: &LinkStore,
    permissions: &Permissions,
    board_id: i64,
    repository_owner: &str,
    repository_name: &str,
) -> (r: Result<UpsertPlan, GITrelloError>)
    requires
        store@.inv(),
    ensures
        !permissions.can_mutate <==> (r matches Err(e) && e is PermissionDenied),
        permissions.can_mutate <==> r is Ok,
        r matches Ok(plan) ==> upsert_plan_ok(
            store@,
            board_id as int,
            repository_owner@,
            repository_name@,
            plan,
        ),
{
    if !permissions.can_mutate {
        return Err(GITrelloError::PermissionDenied);
    }
    let owner_string: String = repository_owner.to_owned();
    let name_string: String = repository_name.to_owned();
    match store.get_by_board_id(board_id) {
        Ok(link) => {
            let same = link.repository_owner == owner_string && link.repository_name
                == name_string;
            if same {
                Ok(UpsertPlan::Noop)
            } else {
                let old_hooks = store.get_webhooks_by_repository_name_and_owner(
                    link.repository_name.as_str(),
                    link.repository_owner.as_str(),
                );
                let delete_old = if old_hooks.len() == 1 {
                    let own_hook = match store.get_webhook_by_board_repository_id(link.id) {
                        Ok(h) => h,
                        Err(e) => {
                            proof {
                                let k = store@.link_index_for_board(board_id as int);
                                assert(store@.links[k] == link@);
                                assert(store@.has_hook_for_link(store@.links[k].id));
                                assert(false);
                            }
                            return Err(e);
                        },
                    };
                    Some(
                        WebhookToDelete {
                            repository_owner: link.repository_owner.clone(),
                            repository_name: link.repository_name.clone(),
                            webhook_id: own_hook.webhook_id,
                        },
                    )
                } else {
                    None
                };
                let new_hooks = store.get_webhooks_by_repository_name_and_owner(
                    repository_name,
                    repository_owner,
                );
                let reuse_webhook_id = if new_hooks.len() > 0 {
                    Some(new_hooks[0].webhook_id)
                } else {
                    None
                };
                Ok(UpsertPlan::Repoint { delete_old, reuse_webhook_id })
            }
        },
        Err(_) => {
            let hooks = store.get_webhooks_by_repository_name_and_owner(
                repository_name,
                repository_owner,
            );
            if hooks.len() > 0 {
                Ok(UpsertPlan::CreateReuse { webhook_id: hooks[0].webhook_id })
            } else {
                Ok(UpsertPlan::CreateNew)
            }
        },
    }
}

/// The unique correct plan for deleting the link `id`: delete the
/// provider-side webhook exactly when this link's repository has no other
/// webhook record.
pub open spec fn delete_plan_ok(s: StoreView, id: int, plan: DeletePlan) -> bool {
    let link = s.link_with_id(id);
    if s.hooks_at(link.repository_owner, link.repository_name).len() == 1 {
        plan.delete_webhook matches Some(o) && o.repository_owner@ == link.repository_owner
            && o.repository_name@ == link.repository_name && s.has_hook_for_link(id)
            && o.webhook_id == s.hook_for_link(id).webhook_id
    } else {
        plan.delete_webhook is None
    }
}

/// Decide what deleting the link `id` needs. Fails with `NotFound` when
/// the link does not exist and with `PermissionDenied` exactly when the
/// permission service denied deletion on the link's board; otherwise the
/// returned plan is the unique one `delete_plan_ok` admits.
pub fn plan_delete(store: &LinkStore, permissions: &Permissions, id: i32) -> (r: Result<
    DeletePlan,
    GITrelloError,
>)
    requires
        store@.inv(),
    ensures
        !store@.has_link_with_id(id as int) <==> (r matches Err(e) && e matches
            GITrelloError::NotFound { .. }),
        store@.has_link_with_id(id as int) && !permissions.can_delete <==> (r matches Err(e)
            && e is PermissionDenied),
        store@.has_link_with_id(id as int) && permissions.can_delete <==> r is Ok,
        r matches Ok(plan) ==> delete_plan_ok(store@, id as int, plan),
{
    let link = match store.get_by_id(id) {
        Ok(link) => link,
        Err(e) => {
            return Err(e);
        },
    };
    if !permissions.can_delete {
        return Err(GITrelloError::PermissionDenied);
    }
    let refs = store.get_webhooks_by_repository_name_and_owner(
        link.repository_name.as_str(),
        link.repository_owner.as_str(),
    );
    if refs.len() == 1 {
        let own_hook = match store.get_webhook_by_board_repository_id(link.id) {
            Ok(h) => h,
            Err(e) => {
                proof {
                    let k = store@.link_index_of(id as int);
                    assert(store@.links[k] == link@);
                    assert(store@.has_hook_for_link(store@.links[k].id));
                    assert(false);
                }
                return Err(e);
            },
        };
        Ok(
            DeletePlan {
                delete_webhook: Some(
                    WebhookToDelete {
                        repository_owner: link.repository_owner,
                        repository_name: link.repository_name,
                        webhook_id: own_hook.webhook_id,
                    },
                ),
            },
        )
    } else {
        Ok(DeletePlan { delete_webhook: None })
    }
}

/// The webhook id a link at `(owner, name)` may carry: when records
/// already resolve to the repository, only their shared id is admissible.
pub open spec fn create_value_ok(
    s: StoreView,
    owner: Seq<char>,
    name: Seq<char>,
    webhook_id: int,
) -> bool {
    s.hooks_at(owner, name).len() > 0 ==> webhook_id == s.hooks_at(owner, name)[0].webhook_id
}

/// In a well-formed store, any index holding a link id is the index the
/// lookup functions denote.
proof fn lemma_link_lookup(s: StoreView, k: int)
    requires
        s.wf(),
        0 <= k < s.links.len(),
    ensures
        s.has_link_with_id(s.links[k].id),
        s.link_index_of(s.links[k].id) == k,
        s.link_with_id(s.links[k].id) == s.links[k],
{
    assert(s.has_link_with_id(s.links[k].id));
    let k2 = s.link_index_of(s.links[k].id);
    assert(0 <= k2 < s.links.len() && s.links[k2].id == s.links[k].id);
    if k2 != k {
        assert(s.links[k2].id != s.links[k].id);
    }
}

/// In a well-formed store, any index holding a record of a link is the
/// index the lookup functions denote.
proof fn lemma_hook_lookup(s: StoreView, k: int)
    requires
        s.wf(),
        0 <= k < s.hooks.len(),
    ensures
        s.has_hook_for_link(s.hooks[k].board_repository_id),
        s.hook_index_for_link(s.hooks[k].board_repository_id) == k,
        s.hook_for_link(s.hooks[k].board_repository_id) == s.hooks[k],
        s.has_hook_with_id(s.hooks[k].id),
        s.hook_index_of(s.hooks[k].id) == k,
{
    assert(s.has_hook_for_link(s.hooks[k].board_repository_id));
    let k2 = s.hook_index_for_link(s.hooks[k].board_repository_id);
    assert(0 <= k2 < s.hooks.len() && s.hooks[k2].board_repository_id
        == s.hooks[k].board_repository_id);
    if k2 != k {
        assert(s.hooks[k2].board_repository_id != s.hooks[k].board_repository_id);
    }
    assert(s.has_hook_with_id(s.hooks[k].id));
    let k3 = s.hook_index_of(s.hooks[k].id);
    assert(0 <= k3 < s.hooks.len() && s.hooks[k3].id == s.hooks[k].id);
    if k3 != k {
        assert(s.hooks[k3].id != s.hooks[k].id);
    }
}

/// Every record resolving to `(owner, name)` carries the id named by the
/// first of them: the consistency property, read off the filtered view.
proof fn lemma_resolving_hook_id(s: StoreView, owner: Seq<char>, name: Seq<char>, i: int)
    requires
        s.wf(),
        s.consistent(),
        0 <= i < s.hooks.len(),
        s.resolves_to(s.hooks[i], owner, name),
    ensures
        s.hooks_at(owner, name).len() > 0,
        s.hooks[i].webhook_id == s.hooks_at(owner, name)[0].webhook_id,
{
    let p = s.resolves_pred(owner, name);
    s.hooks.lemma_filter_contains(p, i);
    assert(s.hooks_at(owner, name).contains(s.hooks[i]));
    assert(s.hooks_at(owner, name).len() > 0);
    s.hooks.lemma_filter_pred(p, 0);
    assert(s.resolves_to(s.hooks_at(owner, name)[0], owner, name));
    crate::store::lemma_filter_elem_index(s.hooks, p, 0);
    let j0 = choose|j: int| 0 <= j < s.hooks.len() && s.hooks[j] == s.hooks_at(owner, name)[0];
    assert(s.resolves_to(s.hooks[j0], owner, name));
    assert(crate::store::same_repository(
        s.link_with_id(s.hooks[i].board_repository_id),
        s.link_with_id(s.hooks[j0].board_repository_id),
    ));
    assert(s.hooks[i].webhook_id == s.hooks[j0].webhook_id);
}

/// Creating a link together with its record, with an admissible webhook
/// id, preserves the full invariant.
proof fn lemma_inv_after_create(
    pre: StoreView,
    post: StoreView,
    l: BoardRepositoryView,
    h: GithubWebhookView,
)
    requires
        pre.inv(),
        !pre.has_link_for_board(l.board_id),
        l.id == pre.next_link_id,
        pre.next_link_id < i32::MAX,
        pre.next_hook_id < i32::MAX,
        h.id == pre.next_hook_id,
        h.board_repository_id == l.id,
        create_value_ok(pre, l.repository_owner, l.repository_name, h.webhook_id),
        post == (StoreView {
            links: pre.links.push(l),
            hooks: pre.hooks.push(h),
            next_link_id: pre.next_link_id + 1,
            next_hook_id: pre.next_hook_id + 1,
        }),
    ensures
        post.inv(),
{
    let mid = StoreView { links: pre.links.push(l), next_link_id: pre.next_link_id + 1, ..pre };
    crate::store::lemma_wf_after_link_push(pre, mid, l);
    assert forall|i: int| 0 <= i < mid.hooks.len() implies (
    #[trigger] mid.hooks[i]).board_repository_id != l.id by {
        assert(pre.has_link_with_id(pre.hooks[i].board_repository_id));
        let w = pre.link_index_of(pre.hooks[i].board_repository_id);
        assert(pre.links[w].id == pre.hooks[i].board_repository_id);
        assert(pre.links[w].id < pre.next_link_id);
    }
    assert(!mid.has_hook_for_link(h.board_repository_id));
    assert(mid.links[mid.links.len() - 1] == l);
    assert(mid.has_link_with_id(h.board_repository_id));
    crate::store::lemma_wf_after_hook_push(
        mid,
        StoreView { hooks: mid.hooks.push(h), next_hook_id: mid.next_hook_id + 1, ..mid },
        h,
    );
    assert(post == (StoreView { hooks: mid.hooks.push(h), next_hook_id: mid.next_hook_id + 1, ..mid }));
    assert(post.wf());
    // completeness: old links keep their records, the new link has `h`
    assert forall|i: int| 0 <= i < post.links.len() implies post.has_hook_for_link(
        (#[trigger] post.links[i]).id,
    ) by {
        if i < pre.links.len() {
            assert(post.links[i] == pre.links[i]);
            assert(pre.has_hook_for_link(pre.links[i].id));
            let w = pre.hook_index_for_link(pre.links[i].id);
            assert(post.hooks[w] == pre.hooks[w]);
            assert(post.hooks[w].board_repository_id == pre.links[i].id);
        } else {
            assert(post.links[i] == l);
            assert(post.hooks[post.hooks.len() - 1] == h);
        }
    }
    // lookup stability for the old records
    assert forall|i: int| 0 <= i < pre.hooks.len() implies post.link_with_id(
        (#[trigger] pre.hooks[i]).board_repository_id,
    ) == pre.link_with_id(pre.hooks[i].board_repository_id) && post.has_link_with_id(
        pre.hooks[i].board_repository_id,
    ) by {
        let lid = pre.hooks[i].board_repository_id;
        assert(pre.has_link_with_id(lid));
        let w = pre.link_index_of(lid);
        assert(pre.links[w].id == lid);
        assert(post.links[w] == pre.links[w]);
        lemma_link_lookup(post, w);
        lemma_link_lookup(pre, w);
    }
    assert(post.links[pre.links.len() as int] == l);
    lemma_link_lookup(post, pre.links.len() as int);
    assert(post.link_with_id(l.id) == l);
    // consistency
    assert forall|i: int, j: int|
        #![trigger post.hooks[i], post.hooks[j]]
        0 <= i < post.hooks.len() && 0 <= j < post.hooks.len() && post.has_link_with_id(
            post.hooks[i].board_repository_id,
        ) && post.has_link_with_id(post.hooks[j].board_repository_id)
        && crate::store::same_repository(
        post.link_with_id(post.hooks[i].board_repository_id),
        post.link_with_id(post.hooks[j].board_repository_id),
    ) implies post.hooks[i].webhook_id == post.hooks[j].webhook_id by {
        let n = pre.hooks.len() as int;
        if i < n && j < n {
            assert(post.hooks[i] == pre.hooks[i]);
            assert(post.hooks[j] == pre.hooks[j]);
        } else if i < n && j == n {
            assert(post.hooks[i] == pre.hooks[i]);
            assert(post.hooks[j] == h);
            assert(crate::store::same_repository(
                pre.link_with_id(pre.hooks[i].board_repository_id),
                l,
            ));
            assert(pre.resolves_to(pre.hooks[i], l.repository_owner, l.repository_name));
            lemma_resolving_hook_id(pre, l.repository_owner, l.repository_name, i);
        } else if i == n && j < n {
            assert(post.hooks[j] == pre.hooks[j]);
            assert(post.hooks[i] == h);
            assert(crate::store::same_repository(
                pre.link_with_id(pre.hooks[j].board_repository_id),
                l,
            ));
            assert(pre.resolves_to(pre.hooks[j], l.repository_owner, l.repository_name));
            lemma_resolving_hook_id(pre, l.repository_owner, l.repository_name, j);
        }
    }
    assert(post.consistent());
    assert(post.complete());
}

/// Repointing a link and its record to a different repository, with an
/// admissible webhook id, preserves the full invariant.
proof fn lemma_inv_after_repoint(
    pre: StoreView,
    post: StoreView,
    k: int,
    hk: int,
    l2: BoardRepositoryView,
    h2: GithubWebhookView,
)
    requires
        pre.inv(),
        0 <= k < pre.links.len(),
        0 <= hk < pre.hooks.len(),
        pre.hooks[hk].board_repository_id == pre.links[k].id,
        l2.id == pre.links[k].id,
        l2.board_id == pre.links[k].board_id,
        !link_at(pre.links[k], l2.repository_owner, l2.repository_name),
        h2.id == pre.hooks[hk].id,
        h2.board_repository_id == pre.hooks[hk].board_repository_id,
        create_value_ok(pre, l2.repository_owner, l2.repository_name, h2.webhook_id),
        post == (StoreView {
            links: pre.links.update(k, l2),
            hooks: pre.hooks.update(hk, h2),
            ..pre
        }),
    ensures
        post.inv(),
{
    let mid = StoreView { hooks: pre.hooks.update(hk, h2), ..pre };
    crate::store::lemma_wf_after_hook_update(pre, mid, hk, h2);
    crate::store::lemma_wf_after_link_update(
        mid,
        StoreView { links: mid.links.update(k, l2), ..mid },
        k,
        l2,
    );
    assert(post == (StoreView { links: mid.links.update(k, l2), ..mid }));
    assert(post.wf());
    let lid = pre.links[k].id;
    // completeness: per-index link ids and record owners are unchanged
    assert forall|i: int| 0 <= i < post.links.len() implies post.has_hook_for_link(
        (#[trigger] post.links[i]).id,
    ) by {
        assert(post.links[i].id == pre.links[i].id);
        assert(pre.has_hook_for_link(pre.links[i].id));
        let w = pre.hook_index_for_link(pre.links[i].id);
        assert(pre.hooks[w].board_repository_id == pre.links[i].id);
        assert(post.hooks[w].board_repository_id == pre.links[i].id);
    }
    // lookup facts
    lemma_link_lookup(post, k);
    assert(post.link_with_id(lid) == l2);
    assert forall|w: int| 0 <= w < pre.links.len() && w != k implies post.link_with_id(
        (#[trigger] pre.links[w]).id,
    ) == pre.links[w] && post.has_link_with_id(pre.links[w].id) by {
        assert(post.links[w] == pre.links[w]);
        lemma_link_lookup(post, w);
    }
    // consistency
    assert forall|i: int, j: int|
        #![trigger post.hooks[i], post.hooks[j]]
        0 <= i < post.hooks.len() && 0 <= j < post.hooks.len() && post.has_link_with_id(
            post.hooks[i].board_repository_id,
        ) && post.has_link_with_id(post.hooks[j].board_repository_id)
        && crate::store::same_repository(
        post.link_with_id(post.hooks[i].board_repository_id),
        post.link_with_id(post.hooks[j].board_repository_id),
    ) implies post.hooks[i].webhook_id == post.hooks[j].webhook_id by {
        if i != hk && j != hk {
            assert(post.hooks[i] == pre.hooks[i]);
            assert(post.hooks[j] == pre.hooks[j]);
            let li = pre.hooks[i].board_repository_id;
            let lj = pre.hooks[j].board_repository_id;
            assert(li != lid && lj != lid);
            assert(pre.has_link_with_id(li));
            let wi = pre.link_index_of(li);
            assert(wi != k);
            assert(post.link_with_id(li) == pre.links[wi]);
            lemma_link_lookup(pre, wi);
            assert(pre.has_link_with_id(lj));
            let wj = pre.link_index_of(lj);
            assert(wj != k);
            assert(post.link_with_id(lj) == pre.links[wj]);
            lemma_link_lookup(pre, wj);
        } else if i == hk && j != hk {
            assert(post.hooks[i] == h2);
            assert(post.hooks[j] == pre.hooks[j]);
            let lj = pre.hooks[j].board_repository_id;
            assert(lj != lid);
            let wj = pre.link_index_of(lj);
            assert(wj != k);
            assert(post.link_with_id(lj) == pre.links[wj]);
            lemma_link_lookup(pre, wj);
            assert(link_at(pre.link_with_id(lj), l2.repository_owner, l2.repository_name));
            assert(pre.resolves_to(pre.hooks[j], l2.repository_owner, l2.repository_name));
            lemma_resolving_hook_id(pre, l2.repository_owner, l2.repository_name, j);
        } else if i != hk && j == hk {
            assert(post.hooks[j] == h2);
            assert(post.hooks[i] == pre.hooks[i]);
            let li = pre.hooks[i].board_repository_id;
            assert(li != lid);
            let wi = pre.link_index_of(li);
            assert(wi != k);
            assert(post.link_with_id(li) == pre.links[wi]);
            lemma_link_lookup(pre, wi);
            assert(link_at(pre.link_with_id(li), l2.repository_owner, l2.repository_name));
            assert(pre.resolves_to(pre.hooks[i], l2.repository_owner, l2.repository_name));
            lemma_resolving_hook_id(pre, l2.repository_owner, l2.repository_name, i);
        }
    }
    assert(post.consistent());
    assert(post.complete());
}

/// Removing a link together with its record preserves completeness and
/// consistency.
proof fn lemma_inv_after_delete(pre: StoreView, post: StoreView, id: int)
    requires
        pre.inv(),
        pre.has_link_with_id(id),
        post.wf(),
        post == (StoreView {
            links: pre.links.remove(pre.link_index_of(id)),
            hooks: (if pre.has_hook_for_link(id) {
                pre.hooks.remove(pre.hook_index_for_link(id))
            } else {
                pre.hooks
            }),
            ..pre
        }),
    ensures
        post.complete(),
        post.consistent(),
{
    let k = pre.link_index_of(id);
    assert(0 <= k < pre.links.len() && pre.links[k].id == id);
    assert(pre.has_hook_for_link(id)) by {
        assert(pre.has_hook_for_link(pre.links[k].id));
    }
    let hk = pre.hook_index_for_link(id);
    assert(0 <= hk < pre.hooks.len() && pre.hooks[hk].board_repository_id == id);
    // each surviving record and link maps back to its index before removal
    assert forall|i: int| 0 <= i < post.hooks.len() implies #[trigger] post.hooks[i] == pre.hooks[
        (if i < hk {
            i
        } else {
            i + 1
        })
    ] by {}
    assert forall|i: int| 0 <= i < post.links.len() implies #[trigger] post.links[i] == pre.links[
        (if i < k {
            i
        } else {
            i + 1
        })
    ] by {}
    // completeness
    assert forall|i: int| 0 <= i < post.links.len() implies post.has_hook_for_link(
        (#[trigger] post.links[i]).id,
    ) by {
        let pi = if i < k {
            i
        } else {
            i + 1
        };
        assert(post.links[i] == pre.links[pi]);
        assert(pre.has_hook_for_link(pre.links[pi].id));
        let w = pre.hook_index_for_link(pre.links[pi].id);
        assert(pre.hooks[w].board_repository_id == pre.links[pi].id);
        assert(w != hk);
        let qi = if w < hk {
            w
        } else {
            w - 1
        };
        assert(post.hooks[qi] == pre.hooks[w]);
    }
    // lookup stability for surviving links
    assert forall|w: int| 0 <= w < pre.links.len() && w != k implies post.has_link_with_id(
        (#[trigger] pre.links[w]).id,
    ) && post.link_with_id(pre.links[w].id) == pre.links[w] by {
        let qw = if w < k {
            w
        } else {
            w - 1
        };
        assert(post.links[qw] == pre.links[w]);
        lemma_link_lookup(post, qw);
    }
    // consistency
    assert forall|i: int, j: int|
        #![trigger post.hooks[i], post.hooks[j]]
        0 <= i < post.hooks.len() && 0 <= j < post.hooks.len() && post.has_link_with_id(
            post.hooks[i].board_repository_id,
        ) && post.has_link_with_id(post.hooks[j].board_repository_id)
        && crate::store::same_repository(
        post.link_with_id(post.hooks[i].board_repository_id),
        post.link_with_id(post.hooks[j].board_repository_id),
    ) implies post.hooks[i].webhook_id == post.hooks[j].webhook_id by {
        let pi = if i < hk {
            i
        } else {
            i + 1
        };
        let pj = if j < hk {
            j
        } else {
            j + 1
        };
        assert(post.hooks[i] == pre.hooks[pi]);
        assert(post.hooks[j] == pre.hooks[pj]);
        let li = pre.hooks[pi].board_repository_id;
        let lj = pre.hooks[pj].board_repository_id;
        assert(pre.has_link_with_id(li));
        assert(pre.has_link_with_id(lj));
        let wi = pre.link_index_of(li);
        let wj = pre.link_index_of(lj);
        lemma_link_lookup(pre, wi);
        lemma_link_lookup(pre, wj);
        assert(pi != hk && pj != hk);
        assert(li != id) by {
            if li == id {
                assert(pre.hooks[pi].board_repository_id == pre.hooks[hk].board_repository_id);
            }
        }
        assert(lj != id) by {
            if lj == id {
                assert(pre.hooks[pj].board_repository_id == pre.hooks[hk].board_repository_id);
            }
        }
        assert(wi != k && wj != k);
        assert(post.link_with_id(li) == pre.links[wi]);
        assert(post.link_with_id(lj) == pre.links[wj]);
    }
}

fn apply_create(
    store: &mut LinkStore,
    github_profile_id: i32,
    board_id: i64,
    repository_owner: &str,
    repository_name: &str,
    webhook_url: &str,
    webhook_id: i64,
) -> (r: Result<(BoardRepository, bool), GITrelloError>)
    requires
        old(store)@.inv(),
        !old(store)@.has_link_for_board(board_id as int),
        create_value_ok(old(store)@, repository_owner@, repository_name@, webhook_id as int),
    ensures
        final(store)@.inv(),
        old(store)@.next_link_id < i32::MAX && old(store)@.next_hook_id < i32::MAX ==> (r matches
            Ok(p) && p.1 == true && p.0@ == (BoardRepositoryView {
            id: old(store)@.next_link_id,
            github_profile_id: github_profile_id as int,
            board_id: board_id as int,
            repository_name: repository_name@,
            repository_owner: repository_owner@,
        }) && final(store)@ == (StoreView {
            links: old(store)@.links.push(p.0@),
            hooks: old(store)@.hooks.push(
                GithubWebhookView {
                    id: old(store)@.next_hook_id,
                    webhook_id: webhook_id as int,
                    url: webhook_url@,
                    board_repository_id: old(store)@.next_link_id,
                },
            ),
            next_link_id: old(store)@.next_link_id + 1,
            next_hook_id: old(store)@.next_hook_id + 1,
        })),
        !(old(store)@.next_link_id < i32::MAX && old(store)@.next_hook_id < i32::MAX) ==> (r
            matches Err(e) && e is InternalError) && final(store)@ == old(store)@,
{
    let ghost pre = old(store)@;
    if !store.has_capacity() {
        return Err(GITrelloError::InternalError);
    }
    let data = NewBoardRepository {
        github_profile_id,
        board_id,
        repository_name: repository_name.to_owned(),
        repository_owner: repository_owner.to_owned(),
    };
    let link = match store.create_board_repository(&data) {
        Ok(link) => link,
        Err(e) => {
            proof {
                assert(false);
            }
            return Err(e);
        },
    };
    let ghost mid = store@;
    proof {
        assert(mid.links[mid.links.len() - 1] == link@);
        assert(mid.has_link_with_id(link@.id));
        assert forall|i: int| 0 <= i < mid.hooks.len() implies (
        #[trigger] mid.hooks[i]).board_repository_id != link@.id by {
            assert(pre.has_link_with_id(pre.hooks[i].board_repository_id));
            let w = pre.link_index_of(pre.hooks[i].board_repository_id);
            assert(pre.links[w].id == pre.hooks[i].board_repository_id);
            assert(pre.links[w].id < pre.next_link_id);
        }
        assert(!mid.has_hook_for_link(link@.id));
    }
    let hook_data = NewGithubWebhook {
        webhook_id,
        url: webhook_url.to_owned(),
        board_repository_id: link.id,
    };
    let hook = match store.create_github_webhook(&hook_data) {
        Ok(hook) => hook,
        Err(e) => {
            proof {
                assert(false);
            }
            return Err(e);
        },
    };
    proof {
        assert(store@ == (StoreView {
            links: pre.links.push(link@),
            hooks: pre.hooks.push(hook@),
            next_link_id: pre.next_link_id + 1,
            next_hook_id: pre.next_hook_id + 1,
        }));
        lemma_inv_after_create(pre, store@, link@, hook@);
    }
    Ok((link, true))
}

/// Apply a planned create-or-update. `plan` must be the plan
/// `upsert_plan_ok` admits for the pre-state, and `created_webhook_id` the
/// id the provider returned for the webhook creation the plan called for
/// (`None` exactly when it called for none). Only id-space exhaustion
/// fails, with `InternalError` and the store untouched; the reconciler's
/// invariant holds afterwards either way.
pub fn apply_upsert(
    store: &mut LinkStore,
    github_profile_id: i32,
    board_id: i64,
    repository_owner: &str,
    repository_name: &str,
    webhook_url: &str,
    plan: &UpsertPlan,
    created_webhook_id: Option<i64>,
) -> (r: Result<(BoardRepository, bool), GITrelloError>)
    requires
        old(store)@.inv(),
        upsert_plan_ok(
            old(store)@,
            board_id as int,
            repository_owner@,
            repository_name@,
            *plan,
        ),
        created_webhook_id is Some <==> plan_needs_create(*plan),
    ensures
        final(store)@.inv(),
        r is Err ==> (r matches Err(e) && e is InternalError) && final(store)@ == old(store)@
            && (*plan is CreateReuse || *plan is CreateNew),
        (*plan is CreateReuse || *plan is CreateNew) && !(old(store)@.next_link_id < i32::MAX
            && old(store)@.next_hook_id < i32::MAX) ==> r is Err,
        *plan is Noop ==> (r matches Ok(p) && p.1 == false && p.0@ == old(
            store,
        )@.link_for_board(board_id as int) && final(store)@ == old(store)@),
        (*plan is CreateReuse || *plan is CreateNew) && old(store)@.next_link_id < i32::MAX && old(
            store,
        )@.next_hook_id < i32::MAX ==> (r matches Ok(p) && p.1 == true && p.0@
            == (BoardRepositoryView {
            id: old(store)@.next_link_id,
            github_profile_id: github_profile_id as int,
            board_id: board_id as int,
            repository_name: repository_name@,
            repository_owner: repository_owner@,
        }) && final(store)@ == (StoreView {
            links: old(store)@.links.push(p.0@),
            hooks: old(store)@.hooks.push(
                GithubWebhookView {
                    id: old(store)@.next_hook_id,
                    webhook_id: (match *plan {
                        UpsertPlan::CreateReuse { webhook_id } => webhook_id as int,
                        _ => created_webhook_id.unwrap() as int,
                    }),
                    url: webhook_url@,
                    board_repository_id: old(store)@.next_link_id,
                },
            ),
            next_link_id: old(store)@.next_link_id + 1,
            next_hook_id: old(store)@.next_hook_id + 1,
        })),
        *plan matches UpsertPlan::Repoint { delete_old, reuse_webhook_id } ==> (r matches Ok(p)
            && p.1 == false && ({
            let pre = old(store)@;
            let link = pre.link_for_board(board_id as int);
            let w = (match reuse_webhook_id {
                Some(w) => w as int,
                None => created_webhook_id.unwrap() as int,
            });
            let l2 = (BoardRepositoryView {
                repository_owner: repository_owner@,
                repository_name: repository_name@,
                ..link
            });
            let h2 = (GithubWebhookView { webhook_id: w, ..pre.hook_for_link(link.id) });
            p.0@ == l2 && final(store)@ == (StoreView {
                links: pre.links.update(pre.link_index_for_board(board_id as int), l2),
                hooks: pre.hooks.update(pre.hook_index_for_link(link.id), h2),
                ..pre
            })
        })),
{
    let ghost pre = old(store)@;
    match plan {
        UpsertPlan::Noop => {
            let link = match store.get_by_board_id(board_id) {
                Ok(link) => link,
                Err(e) => {
                    proof {
                        assert(false);
                    }
                    return Err(e);
                },
            };
            Ok((link, false))
        },
        UpsertPlan::CreateReuse { webhook_id } => {
            apply_create(
                store,
                github_profile_id,
                board_id,
                repository_owner,
                repository_name,
                webhook_url,
                *webhook_id,
            )
        },
        UpsertPlan::CreateNew => {
            let webhook_id = match created_webhook_id {
                Some(w) => w,
                None => {
                    proof {
                        assert(false);
                    }
                    return Err(GITrelloError::InternalError);
                },
            };
            apply_create(
                store,
                github_profile_id,
                board_id,
                repository_owner,
                repository_name,
                webhook_url,
                webhook_id,
            )
        },
        UpsertPlan::Repoint { delete_old: _, reuse_webhook_id } => {
            let link = match store.get_by_board_id(board_id) {
                Ok(link) => link,
                Err(e) => {
                    proof {
                        assert(false);
                    }
                    return Err(e);
                },
            };
            let ghost k = pre.link_index_for_board(board_id as int);
            proof {
                assert(pre.links[k] == link@);
            }
            let hook = match store.get_webhook_by_board_repository_id(link.id) {
                Ok(hook) => hook,
                Err(e) => {
                    proof {
                        assert(pre.has_hook_for_link(pre.links[k].id));
                        assert(false);
                    }
                    return Err(e);
                },
            };
            let ghost hk = pre.hook_index_for_link(link@.id);
            proof {
                assert(pre.hooks[hk] == hook@);
            }
            let new_webhook_id = match reuse_webhook_id {
                Some(w) => *w,
                None => {
                    match created_webhook_id {
                        Some(w) => w,
                        None => {
                            proof {
                                assert(false);
                            }
                            return Err(GITrelloError::InternalError);
                        },
                    }
                },
            };
            let updated_hook = match store.update_webhook_id(hook.id, new_webhook_id) {
                Ok(h) => h,
                Err(e) => {
                    proof {
                        lemma_hook_lookup(pre, hk);
                        assert(false);
                    }
                    return Err(e);
                },
            };
            let ghost mid = store@;
            proof {
                lemma_hook_lookup(pre, hk);
                assert(pre.hook_index_of(hook@.id) == hk);
                assert(mid == (StoreView { hooks: pre.hooks.update(hk, updated_hook@), ..pre }));
            }
            let updated_link = match store.update_repository_data(
                link.id,
                repository_owner,
                repository_name,
            ) {
                Ok(l) => l,
                Err(e) => {
                    proof {
                        assert(mid.links[k] == link@);
                        assert(mid.has_link_with_id(link@.id));
                        assert(false);
                    }
                    return Err(e);
                },
            };
            proof {
                assert(mid.links[k] == pre.links[k]);
                lemma_link_lookup(mid, k);
                assert(mid.link_index_of(link@.id) == k);
                assert(mid.link_with_id(link@.id) == pre.links[k]);
                assert(store@ == (StoreView {
                    links: pre.links.update(k, updated_link@),
                    hooks: pre.hooks.update(hk, updated_hook@),
                    ..pre
                }));
                lemma_inv_after_repoint(pre, store@, k, hk, updated_link@, updated_hook@);
            }
            Ok((updated_link, false))
        },
    }
}

/// Apply a planned link deletion: the link and its webhook record go away
/// together. Fails with `NotFound` exactly when the link does not exist;
/// the reconciler's invariant holds afterwards either way.
pub fn apply_delete(store: &mut LinkStore, id: i32) -> (r: Result<(), GITrelloError>)
    requires
        old(store)@.inv(),
    ensures
        final(store)@.inv(),
        !old(store)@.has_link_with_id(id as int) ==> (r matches Err(e) && e matches
            GITrelloError::NotFound { .. }) && final(store)@ == old(store)@,
        old(store)@.has_link_with_id(id as int) ==> r is Ok && final(store)@ == (StoreView {
            links: old(store)@.links.remove(old(store)@.link_index_of(id as int)),
            hooks: (if old(store)@.has_hook_for_link(id as int) {
                old(store)@.hooks.remove(old(store)@.hook_index_for_link(id as int))
            } else {
                old(store)@.hooks
            }),
            ..old(store)@
        }),
        old(store)@.has_link_with_id(id as int) ==> !final(store)@.has_link_with_id(id as int)
            && !final(store)@.has_hook_for_link(id as int),
{
    let ghost pre = old(store)@;
    let r = store.delete_board_repository(id);
    proof {
        if pre.has_link_with_id(id as int) {
            lemma_inv_after_delete(pre, store@, id as int);
        }
    }
    r
}

/// For any repository, every webhook record resolving to it carries the
/// same provider-side webhook id: the provider-side webhook is shared.
pub proof fn lemma_shared_webhook_unique(
    s: StoreView,
    owner: Seq<char>,
    name: Seq<char>,
    i: int,
    j: int,
)
    requires
        s.inv(),
        0 <= i < s.hooks.len(),
        0 <= j < s.hooks.len(),
        s.resolves_to(s.hooks[i], owner, name),
        s.resolves_to(s.hooks[j], owner, name),
    ensures
        s.hooks[i].webhook_id == s.hooks[j].webhook_id,
{
    assert(crate::store::same_repository(
        s.link_with_id(s.hooks[i].board_repository_id),
        s.link_with_id(s.hooks[j].board_repository_id),
    ));
}

/// A repository with no live link has no webhook record resolving to it:
/// local records never outlive their links.
pub proof fn lemma_no_link_no_record(
    s: StoreView,
    owner: Seq<char>,
    name: Seq<char>,
    i: int,
)
    requires
        s.wf(),
        s.links_at(owner, name).len() == 0,
        0 <= i < s.hooks.len(),
    ensures
        !s.resolves_to(s.hooks[i], owner, name),
{
    if s.resolves_to(s.hooks[i], owner, name) {
        let w = s.link_index_of(s.hooks[i].board_repository_id);
        assert(0 <= w < s.links.len() && s.links[w].id == s.hooks[i].board_repository_id);
        assert(link_at(s.links[w], owner, name));
        s.links.lemma_filter_contains(crate::store::link_at_pred(owner, name), w);
        assert(s.links_at(owner, name).contains(s.links[w]));
    }
}

/// Creating a link and then planning the same create again yields a
/// no-op: the second call resolves to update semantics and plans no
/// second webhook creation.
pub proof fn lemma_create_then_replan(
    pre: StoreView,
    post: StoreView,
    l: BoardRepositoryView,
    plan: UpsertPlan,
)
    requires
        !pre.has_link_for_board(l.board_id),
        post.links == pre.links.push(l),
        upsert_plan_ok(post, l.board_id, l.repository_owner, l.repository_name, plan),
    ensures
        plan is Noop,
        !plan_needs_create(plan),
{
    assert(post.links[post.links.len() - 1] == l);
    assert(post.has_link_for_board(l.board_id));
    let k = post.link_index_for_board(l.board_id);
    assert(0 <= k < post.links.len() && post.links[k].board_id == l.board_id);
    if k != post.links.len() - 1 {
        assert(pre.links[k] == post.links[k]);
        assert(pre.has_link_for_board(l.board_id));
    }
    assert(post.link_for_board(l.board_id) == l);
}

/// A second board linked to an already-linked repository reuses the
/// existing webhook id, and no webhook creation is planned.
pub proof fn lemma_second_link_shares_webhook(
    s: StoreView,
    board_id: int,
    owner: Seq<char>,
    name: Seq<char>,
    i: int,
    plan: UpsertPlan,
)
    requires
        s.inv(),
        !s.has_link_for_board(board_id),
        0 <= i < s.hooks.len(),
        s.resolves_to(s.hooks[i], owner, name),
        upsert_plan_ok(s, board_id, owner, name, plan),
    ensures
        plan matches UpsertPlan::CreateReuse { webhook_id } && webhook_id
            == s.hooks[i].webhook_id,
        !plan_needs_create(plan),
{
    lemma_resolving_hook_id(s, owner, name, i);
}

/// Filtering records keeps the owning links pairwise distinct.
proof fn lemma_hooks_filter_distinct(s: Seq<GithubWebhookView>, p: spec_fn(GithubWebhookView) -> bool)
    requires
        forall|i: int, j: int|
            #![trigger s[i], s[j]]
            0 <= i < j < s.len() ==> s[i].board_repository_id != s[j].board_repository_id,
    ensures
        forall|i: int, j: int|
            #![trigger s.filter(p)[i], s.filter(p)[j]]
            0 <= i < j < s.filter(p).len() ==> s.filter(p)[i].board_repository_id != s.filter(p)[
                j
            ].board_repository_id,
    decreases s.len(),
{
    reveal_with_fuel(Seq::filter, 2);
    if s.len() > 0 {
        let sub = s.drop_last();
        assert forall|i: int, j: int|
            #![trigger sub[i], sub[j]]
            0 <= i < j < sub.len() implies sub[i].board_repository_id
            != sub[j].board_repository_id by {
            assert(s[i].board_repository_id != s[j].board_repository_id);
        }
        lemma_hooks_filter_distinct(sub, p);
        let f = s.filter(p);
        let fs = sub.filter(p);
        if p(s.last()) {
            assert(f =~= fs.push(s.last()));
            assert forall|i: int, j: int|
                #![trigger f[i], f[j]]
                0 <= i < j < f.len() implies f[i].board_repository_id
                != f[j].board_repository_id by {
                if j == f.len() - 1 {
                    assert(f[i] == fs[i]);
                    crate::store::lemma_filter_elem_index(sub, p, i);
                    let w = choose|w: int| 0 <= w < sub.len() && sub[w] == fs[i];
                    assert(s[w] == fs[i]);
                    assert(s[w].board_repository_id != s[s.len() - 1].board_repository_id);
                } else {
                    assert(f[i] == fs[i] && f[j] == fs[j]);
                }
            }
        } else {
            assert(f =~= fs);
        }
    }
}

/// A repository with exactly one live link has exactly one webhook
/// record, the record of that link.
pub proof fn lemma_sole_link_sole_hook(s: StoreView, owner: Seq<char>, name: Seq<char>)
    requires
        s.inv(),
        s.links_at(owner, name).len() == 1,
    ensures
        s.hooks_at(owner, name).len() == 1,
        s.has_hook_for_link(s.links_at(owner, name)[0].id),
        s.hooks_at(owner, name)[0] == s.hook_for_link(s.links_at(owner, name)[0].id),
{
    let lp = crate::store::link_at_pred(owner, name);
    let hp = s.resolves_pred(owner, name);
    let sole = s.links_at(owner, name)[0];
    s.links.lemma_filter_pred(lp, 0);
    assert(link_at(sole, owner, name));
    crate::store::lemma_filter_elem_index(s.links, lp, 0);
    let kl = choose|w: int| 0 <= w < s.links.len() && s.links[w] == sole;
    lemma_link_lookup(s, kl);
    // the sole link's record resolves to the repository
    assert(s.has_hook_for_link(s.links[kl].id));
    let a = s.hook_index_for_link(sole.id);
    assert(0 <= a < s.hooks.len() && s.hooks[a].board_repository_id == sole.id);
    assert(s.resolves_to(s.hooks[a], owner, name));
    s.hooks.lemma_filter_contains(hp, a);
    assert(s.hooks_at(owner, name).contains(s.hooks[a]));
    assert(s.hooks_at(owner, name).len() >= 1);
    // every resolving record is owned by the sole link
    assert forall|i: int| 0 <= i < s.hooks_at(owner, name).len() implies (
    #[trigger] s.hooks_at(owner, name)[i]).board_repository_id == sole.id by {
        s.hooks.lemma_filter_pred(hp, i);
        let h = s.hooks_at(owner, name)[i];
        assert(s.resolves_to(h, owner, name));
        let w = s.link_index_of(h.board_repository_id);
        assert(0 <= w < s.links.len() && s.links[w].id == h.board_repository_id);
        assert(link_at(s.links[w], owner, name));
        s.links.lemma_filter_contains(lp, w);
        assert(s.links_at(owner, name).contains(s.links[w]));
        let c = choose|c: int|
            0 <= c < s.links_at(owner, name).len() && s.links_at(owner, name)[c] == s.links[w];
        assert(c == 0);
        assert(s.links[w] == sole);
    }
    // records have pairwise distinct owning links, so there is only one
    lemma_hooks_filter_distinct(s.hooks, hp);
    if s.hooks_at(owner, name).len() >= 2 {
        assert(s.hooks_at(owner, name)[0].board_repository_id != s.hooks_at(
            owner,
            name,
        )[1].board_repository_id);
    }
    // and it is the record the lookup denotes
    crate::store::lemma_filter_elem_index(s.hooks, hp, 0);
    let w0 = choose|w: int| 0 <= w < s.hooks.len() && s.hooks[w] == s.hooks_at(owner, name)[0];
    lemma_hook_lookup(s, w0);
    assert(s.hook_index_for_link(sole.id) == w0);
}

/// Two records with distinct contents resolving to one repository put its
/// reference count at two or more.
proof fn lemma_two_resolving_hooks(
    s: StoreView,
    owner: Seq<char>,
    name: Seq<char>,
    a: GithubWebhookView,
    b: GithubWebhookView,
)
    requires
        s.hooks_at(owner, name).contains(a),
        s.hooks_at(owner, name).contains(b),
        a != b,
    ensures
        s.hooks_at(owner, name).len() >= 2,
{
    let f = s.hooks_at(owner, name);
    let ia = choose|x: int| 0 <= x < f.len() && f[x] == a;
    let ib = choose|x: int| 0 <= x < f.len() && f[x] == b;
    assert(0 <= ia < f.len() && f[ia] == a);
    assert(0 <= ib < f.len() && f[ib] == b);
    assert(ia != ib);
}

/// Repointing a link whose current repository is still referenced by
/// another link, towards a repository that some third link already
/// points at, plans no provider call at all: no deletion (the old
/// webhook is still needed) and no creation (the target link's webhook
/// id is reused).
pub proof fn lemma_repoint_shared_target(
    s: StoreView,
    board_id: int,
    owner: Seq<char>,
    name: Seq<char>,
    i: int,
    j: int,
    plan: UpsertPlan,
)
    requires
        s.inv(),
        s.has_link_for_board(board_id),
        !link_at(s.link_for_board(board_id), owner, name),
        0 <= i < s.links.len(),
        s.links[i].id != s.link_for_board(board_id).id,
        crate::store::same_repository(s.links[i], s.link_for_board(board_id)),
        0 <= j < s.links.len(),
        link_at(s.links[j], owner, name),
        upsert_plan_ok(s, board_id, owner, name, plan),
    ensures
        plan matches UpsertPlan::Repoint { delete_old, reuse_webhook_id } && delete_old is None
            && reuse_webhook_id == Some(s.hook_for_link(s.links[j].id).webhook_id as i64),
        !plan_needs_create(plan),
{
    // the target link's record resolves to the target repository
    assert(s.has_hook_for_link(s.links[j].id));
    let hj = s.hook_index_for_link(s.links[j].id);
    assert(0 <= hj < s.hooks.len() && s.hooks[hj].board_repository_id == s.links[j].id);
    lemma_link_lookup(s, j);
    assert(s.resolves_to(s.hooks[hj], owner, name));
    lemma_resolving_hook_id(s, owner, name, hj);
    let link = s.link_for_board(board_id);
    let k = s.link_index_for_board(board_id);
    assert(0 <= k < s.links.len() && s.links[k].board_id == board_id);
    let o = link.repository_owner;
    let n = link.repository_name;
    let p = s.resolves_pred(o, n);
    // the link's own record resolves to the old repository
    assert(s.has_hook_for_link(s.links[k].id));
    let a = s.hook_index_for_link(link.id);
    assert(0 <= a < s.hooks.len() && s.hooks[a].board_repository_id == link.id);
    lemma_link_lookup(s, k);
    assert(s.resolves_to(s.hooks[a], o, n));
    s.hooks.lemma_filter_contains(p, a);
    // so does the other link's record
    assert(s.has_hook_for_link(s.links[i].id));
    let b = s.hook_index_for_link(s.links[i].id);
    assert(0 <= b < s.hooks.len() && s.hooks[b].board_repository_id == s.links[i].id);
    lemma_link_lookup(s, i);
    assert(s.resolves_to(s.hooks[b], o, n));
    s.hooks.lemma_filter_contains(p, b);
    assert(s.hooks[a] != s.hooks[b]);
    lemma_two_resolving_hooks(s, o, n, s.hooks[a], s.hooks[b]);
}

/// Repointing the sole link of a repository towards a repository without
/// a webhook plans exactly one best-effort deletion (of the old webhook)
/// and one creation (for the new repository).
pub proof fn lemma_repoint_sole_owner(
    s: StoreView,
    board_id: int,
    owner: Seq<char>,
    name: Seq<char>,
    plan: UpsertPlan,
)
    requires
        s.inv(),
        s.has_link_for_board(board_id),
        !link_at(s.link_for_board(board_id), owner, name),
        s.links_at(
            s.link_for_board(board_id).repository_owner,
            s.link_for_board(board_id).repository_name,
        ).len() == 1,
        s.hooks_at(owner, name).len() == 0,
        upsert_plan_ok(s, board_id, owner, name, plan),
    ensures
        plan matches UpsertPlan::Repoint { delete_old, reuse_webhook_id } && delete_old is Some
            && reuse_webhook_id is None,
        plan_needs_create(plan),
        (match plan {
            UpsertPlan::Repoint { delete_old: Some(o), .. } => o.webhook_id
                == s.hook_for_link(s.link_for_board(board_id).id).webhook_id,
            _ => false,
        }),
{
    let link = s.link_for_board(board_id);
    lemma_sole_link_sole_hook(s, link.repository_owner, link.repository_name);
}

/// Fetch the link of a board on behalf of a caller: fails with
/// `PermissionDenied` exactly when the permission service denied reading, and with
/// `NotFound` exactly when the board is unlinked.
pub fn get_board_repository(store: &LinkStore, permissions: &Permissions, board_id: i64) -> (r:
    Result<BoardRepository, GITrelloError>)
    requires
        store@.inv(),
    ensures
        !permissions.can_read <==> (r matches Err(e) && e is PermissionDenied),
        permissions.can_read && !store@.has_link_for_board(board_id as int) <==> (r matches Err(e)
            && e matches GITrelloError::NotFound { .. }),
        permissions.can_read && store@.has_link_for_board(board_id as int) <==> r is Ok,
        r matches Ok(link) ==> link@ == store@.link_for_board(board_id as int),
{
    if !permissions.can_read {
        return Err(GITrelloError::PermissionDenied);
    }
    store.get_by_board_id(board_id)
}

} // verus!
