//! The link store: bookkeeping for board/repository links and webhook
//! records, with lookups by id, by board and by repository identity.
//!
//! The store itself enforces only structural well-formedness (`wf`): unique
//! ids, a unique board per link, at most one webhook record per link, and
//! no record without its owning link. The reconciler maintains the stronger
//! shared-webhook invariant (`consistent`) on top of these operations.

use vstd::prelude::*;

use crate::errors::GITrelloError;
use crate::models::BoardRepository;
use crate::models::BoardRepositoryView;
use crate::models::GithubWebhook;
use crate::models::GithubWebhookView;
use crate::models::NewBoardRepository;
use crate::models::NewGithubWebhook;

verus! {

/// True when the two links name the same physical repository.
pub open spec fn same_repository(a: BoardRepositoryView, b: BoardRepositoryView) -> bool {
    a.repository_owner == b.repository_owner && a.repository_name == b.repository_name
}

/// True when the link names the repository `(owner, name)`.
pub open spec fn link_at(l: BoardRepositoryView, owner: Seq<char>, name: Seq<char>) -> bool {
    l.repository_owner == owner && l.repository_name == name
}

/// The predicate selecting links at `(owner, name)`.
pub open spec fn link_at_pred(owner: Seq<char>, name: Seq<char>) -> spec_fn(
    BoardRepositoryView,
) -> bool {
    |l: BoardRepositoryView| link_at(l, owner, name)
}

/// The predicate selecting the links of one provider profile.
pub open spec fn link_profile_pred(github_profile_id: int) -> spec_fn(BoardRepositoryView) -> bool {
    |l: BoardRepositoryView| l.github_profile_id == github_profile_id
}

/// Mathematical view of a `LinkStore`.
#[verifier::ext_equal]
pub ghost struct StoreView {
    pub links: Seq<BoardRepositoryView>,
    pub hooks: Seq<GithubWebhookView>,
    pub next_link_id: int,
    pub next_hook_id: int,
}

impl StoreView {
    pub open spec fn has_link_with_id(self, id: int) -> bool {
        exists|i: int| 0 <= i < self.links.len() && #[trigger] self.links[i].id == id
    }

    pub open spec fn link_index_of(self, id: int) -> int {
        choose|i: int| 0 <= i < self.links.len() && #[trigger] self.links[i].id == id
    }

    pub open spec fn link_with_id(self, id: int) -> BoardRepositoryView {
        self.links[self.link_index_of(id)]
    }

    pub open spec fn has_link_for_board(self, board_id: int) -> bool {
        exists|i: int| 0 <= i < self.links.len() && #[trigger] self.links[i].board_id == board_id
    }

    pub open spec fn link_index_for_board(self, board_id: int) -> int {
        choose|i: int| 0 <= i < self.links.len() && #[trigger] self.links[i].board_id == board_id
    }

    pub open spec fn link_for_board(self, board_id: int) -> BoardRepositoryView {
        self.links[self.link_index_for_board(board_id)]
    }

    pub open spec fn has_hook_with_id(self, id: int) -> bool {
        exists|i: int| 0 <= i < self.hooks.len() && #[trigger] self.hooks[i].id == id
    }

    pub open spec fn hook_index_of(self, id: int) -> int {
        choose|i: int| 0 <= i < self.hooks.len() && #[trigger] self.hooks[i].id == id
    }

    pub open spec fn has_hook_for_link(self, link_id: int) -> bool {
        exists|i: int|
            0 <= i < self.hooks.len() && #[trigger] self.hooks[i].board_repository_id == link_id
    }

    pub open spec fn hook_index_for_link(self, link_id: int) -> int {
        choose|i: int|
            0 <= i < self.hooks.len() && #[trigger] self.hooks[i].board_repository_id == link_id
    }

    pub open spec fn hook_for_link(self, link_id: int) -> GithubWebhookView {
        self.hooks[self.hook_index_for_link(link_id)]
    }

    /// All links naming the repository `(owner, name)`, in store order.
    pub open spec fn links_at(self, owner: Seq<char>, name: Seq<char>) -> Seq<
        BoardRepositoryView,
    > {
        self.links.filter(link_at_pred(owner, name))
    }

    /// True when the record belongs to a link naming `(owner, name)`.
    pub open spec fn resolves_to(
        self,
        h: GithubWebhookView,
        owner: Seq<char>,
        name: Seq<char>,
    ) -> bool {
        self.has_link_with_id(h.board_repository_id) && link_at(
            self.link_with_id(h.board_repository_id),
            owner,
            name,
        )
    }

    /// The predicate selecting records resolving to `(owner, name)`.
    pub open spec fn resolves_pred(self, owner: Seq<char>, name: Seq<char>) -> spec_fn(
        GithubWebhookView,
    ) -> bool {
        |h: GithubWebhookView| self.resolves_to(h, owner, name)
    }

    /// All webhook records resolving to `(owner, name)`, in store order.
    pub open spec fn hooks_at(self, owner: Seq<char>, name: Seq<char>) -> Seq<GithubWebhookView> {
        self.hooks.filter(self.resolves_pred(owner, name))
    }

    /// True when the record belongs to a link of the given profile.
    pub open spec fn owned_by_profile(self, h: GithubWebhookView, github_profile_id: int) -> bool {
        self.has_link_with_id(h.board_repository_id) && self.link_with_id(
            h.board_repository_id,
        ).github_profile_id == github_profile_id
    }

    /// The predicate selecting the records of one profile's links.
    pub open spec fn profile_hook_pred(self, github_profile_id: int) -> spec_fn(
        GithubWebhookView,
    ) -> bool {
        |h: GithubWebhookView| self.owned_by_profile(h, github_profile_id)
    }

    /// All webhook records owned by the given profile's links, in store
    /// order.
    pub open spec fn hooks_of_profile(self, github_profile_id: int) -> Seq<GithubWebhookView> {
        self.hooks.filter(self.profile_hook_pred(github_profile_id))
    }

    /// Structural well-formedness: unique ids and board ids among links,
    /// unique ids and owning links among records, every record owned by an
    /// existing link, and all ids below the allocation counters.
    pub open spec fn wf(self) -> bool {
        &&& forall|i: int, j: int|
            #![trigger self.links[i], self.links[j]]
            0 <= i < j < self.links.len() ==> self.links[i].id != self.links[j].id
                && self.links[i].board_id != self.links[j].board_id
        &&& forall|i: int, j: int|
            #![trigger self.hooks[i], self.hooks[j]]
            0 <= i < j < self.hooks.len() ==> self.hooks[i].id != self.hooks[j].id
                && self.hooks[i].board_repository_id != self.hooks[j].board_repository_id
        &&& forall|i: int|
            0 <= i < self.hooks.len() ==> self.has_link_with_id(
                (#[trigger] self.hooks[i]).board_repository_id,
            )
        &&& forall|i: int|
            0 <= i < self.links.len() ==> 0 <= (#[trigger] self.links[i]).id < self.next_link_id
        &&& forall|i: int|
            0 <= i < self.hooks.len() ==> 0 <= (#[trigger] self.hooks[i]).id < self.next_hook_id
        &&& 0 <= self.next_link_id <= i32::MAX
        &&& 0 <= self.next_hook_id <= i32::MAX
    }

    /// Every link has its webhook record.
    pub open spec fn complete(self) -> bool {
        forall|i: int|
            0 <= i < self.links.len() ==> self.has_hook_for_link((#[trigger] self.links[i]).id)
    }

    /// The shared-webhook property: any two records whose owning links name
    /// the same repository carry the same provider-side webhook id.
    pub open spec fn consistent(self) -> bool {
        forall|i: int, j: int|
            #![trigger self.hooks[i], self.hooks[j]]
            0 <= i < self.hooks.len() && 0 <= j < self.hooks.len() && self.has_link_with_id(
                self.hooks[i].board_repository_id,
            ) && self.has_link_with_id(self.hooks[j].board_repository_id) && same_repository(
                self.link_with_id(self.hooks[i].board_repository_id),
                self.link_with_id(self.hooks[j].board_repository_id),
            ) ==> self.hooks[i].webhook_id == self.hooks[j].webhook_id
    }

    /// The full invariant the reconciler maintains.
    pub open spec fn inv(self) -> bool {
        self.wf() && self.complete() && self.consistent()
    }
}

/// Appending an element to a sequence filters to the old result, extended
/// by the element when the predicate accepts it.
pub proof fn lemma_filter_push<A>(s: Seq<A>, x: A, p: spec_fn(A) -> bool)
    ensures
        s.push(x).filter(p) == (if p(x) {
            s.filter(p).push(x)
        } else {
            s.filter(p)
        }),
{
    assert(s.push(x).drop_last() =~= s);
    assert(s.push(x).last() == x);
    reveal_with_fuel(Seq::filter, 2);
}

/// Every element of a filtered sequence occurs in the original.
pub proof fn lemma_filter_elem_index<A>(s: Seq<A>, p: spec_fn(A) -> bool, i: int)
    requires
        0 <= i < s.filter(p).len(),
    ensures
        exists|j: int| 0 <= j < s.len() && s[j] == s.filter(p)[i],
    decreases s.len(),
{
    reveal_with_fuel(Seq::filter, 2);
    if s.len() > 0 {
        let sub = s.drop_last().filter(p);
        if p(s.last()) && i == s.filter(p).len() - 1 {
            assert(s[s.len() - 1] == s.filter(p)[i]);
        } else {
            lemma_filter_elem_index(s.drop_last(), p, i);
            let j = choose|j: int| 0 <= j < s.drop_last().len() && s.drop_last()[j] == sub[i];
            assert(s[j] == s.filter(p)[i]);
        }
    }
}

/// True when some record in the sequence carries the webhook id.
pub open spec fn contains_webhook_id(s: Seq<GithubWebhookView>, webhook_id: int) -> bool {
    exists|i: int| 0 <= i < s.len() && (#[trigger] s[i]).webhook_id == webhook_id
}

/// The records of the sequence with later repetitions of a webhook id
/// dropped: each id keeps its first occurrence.
pub open spec fn dedup_by_webhook_id(s: Seq<GithubWebhookView>) -> Seq<GithubWebhookView>
    decreases s.len(),
{
    if s.len() == 0 {
        s
    } else {
        let prefix = dedup_by_webhook_id(s.drop_last());
        if contains_webhook_id(s.drop_last(), s.last().webhook_id) {
            prefix
        } else {
            prefix.push(s.last())
        }
    }
}

/// One unfolding of `dedup_by_webhook_id` over a push.
pub proof fn lemma_dedup_push(s: Seq<GithubWebhookView>, x: GithubWebhookView)
    ensures
        dedup_by_webhook_id(s.push(x)) == (if contains_webhook_id(s, x.webhook_id) {
            dedup_by_webhook_id(s)
        } else {
            dedup_by_webhook_id(s).push(x)
        }),
{
    assert(s.push(x).drop_last() =~= s);
    assert(s.push(x).last() == x);
}

/// Deduplication keeps exactly the webhook ids of the original sequence.
pub proof fn lemma_dedup_same_ids(s: Seq<GithubWebhookView>, webhook_id: int)
    ensures
        contains_webhook_id(dedup_by_webhook_id(s), webhook_id) == contains_webhook_id(
            s,
            webhook_id,
        ),
    decreases s.len(),
{
    if s.len() > 0 {
        let t = s.drop_last();
        lemma_dedup_same_ids(t, webhook_id);
        let d = dedup_by_webhook_id(s);
        let p = dedup_by_webhook_id(t);
        if contains_webhook_id(t, webhook_id) {
            let i = choose|i: int| 0 <= i < t.len() && t[i].webhook_id == webhook_id;
            assert(s[i].webhook_id == webhook_id);
            assert(contains_webhook_id(s, webhook_id));
        }
        if contains_webhook_id(t, s.last().webhook_id) {
            assert(d == p);
            if contains_webhook_id(s, webhook_id) {
                let i = choose|i: int| 0 <= i < s.len() && s[i].webhook_id == webhook_id;
                if i < s.len() - 1 {
                    assert(t[i].webhook_id == webhook_id);
                } else {
                    assert(webhook_id == s.last().webhook_id);
                }
                assert(contains_webhook_id(t, webhook_id));
            }
        } else {
            assert(d == p.push(s.last()));
            if contains_webhook_id(d, webhook_id) {
                let i = choose|i: int| 0 <= i < d.len() && d[i].webhook_id == webhook_id;
                if i < d.len() - 1 {
                    assert(p[i].webhook_id == webhook_id);
                    assert(contains_webhook_id(p, webhook_id));
                } else {
                    assert(s[s.len() - 1].webhook_id == webhook_id);
                }
                assert(contains_webhook_id(s, webhook_id));
            }
            if contains_webhook_id(s, webhook_id) {
                let i = choose|i: int| 0 <= i < s.len() && s[i].webhook_id == webhook_id;
                if i < s.len() - 1 {
                    assert(t[i].webhook_id == webhook_id);
                    assert(contains_webhook_id(p, webhook_id));
                    let w = choose|w: int| 0 <= w < p.len() && p[w].webhook_id == webhook_id;
                    assert(d[w].webhook_id == webhook_id);
                } else {
                    assert(d[d.len() - 1].webhook_id == webhook_id);
                }
                assert(contains_webhook_id(d, webhook_id));
            }
        }
    }
}

/// Appending a link with a fresh id and an unlinked board keeps the store
/// well-formed.
pub proof fn lemma_wf_after_link_push(pre: StoreView, post: StoreView, l: BoardRepositoryView)
    requires
        pre.wf(),
        !pre.has_link_for_board(l.board_id),
        l.id == pre.next_link_id,
        pre.next_link_id < i32::MAX,
        post == (StoreView { links: pre.links.push(l), next_link_id: pre.next_link_id + 1, ..pre }),
    ensures
        post.wf(),
{
    assert forall|i: int, j: int| 0 <= i < j < post.links.len() implies (
    #[trigger] post.links[i]).id != (#[trigger] post.links[j]).id && post.links[i].board_id
        != post.links[j].board_id by {
        if j == post.links.len() - 1 {
            assert(post.links[i] == pre.links[i]);
            assert(post.links[j] == l);
            assert(pre.links[i].id < pre.next_link_id);
            assert(pre.links[i].board_id != l.board_id);
        } else {
            assert(post.links[i] == pre.links[i]);
            assert(post.links[j] == pre.links[j]);
        }
    }
    assert forall|i: int| 0 <= i < post.hooks.len() implies post.has_link_with_id(
        (#[trigger] post.hooks[i]).board_repository_id,
    ) by {
        assert(post.hooks[i] == pre.hooks[i]);
        let lid = pre.hooks[i].board_repository_id;
        assert(pre.has_link_with_id(lid));
        let w = pre.link_index_of(lid);
        assert(post.links[w] == pre.links[w]);
        assert(post.links[w].id == lid);
    }
    assert forall|i: int| 0 <= i < post.links.len() implies 0 <= (#[trigger] post.links[i]).id
        < post.next_link_id by {
        if i < post.links.len() - 1 {
            assert(post.links[i] == pre.links[i]);
        } else {
            assert(post.links[i] == l);
            assert(l.id == pre.next_link_id < post.next_link_id);
        }
    }
    assert forall|i: int| 0 <= i < post.hooks.len() implies 0 <= (#[trigger] post.hooks[i]).id
        < post.next_hook_id by {
        assert(post.hooks[i] == pre.hooks[i]);
    }
}

/// Appending a webhook record with a fresh id for a link that exists and
/// has no record yet keeps the store well-formed.
pub proof fn lemma_wf_after_hook_push(pre: StoreView, post: StoreView, h: GithubWebhookView)
    requires
        pre.wf(),
        pre.has_link_with_id(h.board_repository_id),
        !pre.has_hook_for_link(h.board_repository_id),
        h.id == pre.next_hook_id,
        pre.next_hook_id < i32::MAX,
        post == (StoreView { hooks: pre.hooks.push(h), next_hook_id: pre.next_hook_id + 1, ..pre }),
    ensures
        post.wf(),
{
    assert forall|i: int, j: int| 0 <= i < j < post.hooks.len() implies (
    #[trigger] post.hooks[i]).id != (#[trigger] post.hooks[j]).id && post.hooks[
    i].board_repository_id != post.hooks[j].board_repository_id by {
        if j == post.hooks.len() - 1 {
            assert(post.hooks[i] == pre.hooks[i]);
            assert(post.hooks[j] == h);
            assert(pre.hooks[i].id < pre.next_hook_id);
            assert(pre.hooks[i].board_repository_id != h.board_repository_id);
        } else {
            assert(post.hooks[i] == pre.hooks[i]);
            assert(post.hooks[j] == pre.hooks[j]);
        }
    }
    assert forall|i: int| 0 <= i < post.hooks.len() implies post.has_link_with_id(
        (#[trigger] post.hooks[i]).board_repository_id,
    ) by {
        let lid = post.hooks[i].board_repository_id;
        if i < post.hooks.len() - 1 {
            assert(post.hooks[i] == pre.hooks[i]);
        } else {
            assert(post.hooks[i] == h);
        }
        assert(pre.has_link_with_id(lid));
        let w = pre.link_index_of(lid);
        assert(post.links[w].id == lid);
    }
    assert forall|i: int| 0 <= i < post.hooks.len() implies 0 <= (#[trigger] post.hooks[i]).id
        < post.next_hook_id by {
        if i < post.hooks.len() - 1 {
            assert(post.hooks[i] == pre.hooks[i]);
        } else {
            assert(post.hooks[i] == h);
            assert(h.id == pre.next_hook_id < post.next_hook_id);
        }
    }
}

/// Replacing a link by one with the same id and board keeps the store
/// well-formed.
pub proof fn lemma_wf_after_link_update(pre: StoreView, post: StoreView, k: int, l: BoardRepositoryView)
    requires
        pre.wf(),
        0 <= k < pre.links.len(),
        l.id == pre.links[k].id,
        l.board_id == pre.links[k].board_id,
        post == (StoreView { links: pre.links.update(k, l), ..pre }),
    ensures
        post.wf(),
{
    assert forall|i: int, j: int| 0 <= i < j < post.links.len() implies (
    #[trigger] post.links[i]).id != (#[trigger] post.links[j]).id && post.links[i].board_id
        != post.links[j].board_id by {
        assert(post.links[i].id == pre.links[i].id && post.links[i].board_id
            == pre.links[i].board_id);
        assert(post.links[j].id == pre.links[j].id && post.links[j].board_id
            == pre.links[j].board_id);
        assert(pre.links[i].id != pre.links[j].id);
    }
    assert forall|i: int| 0 <= i < post.hooks.len() implies post.has_link_with_id(
        (#[trigger] post.hooks[i]).board_repository_id,
    ) by {
        let lid = post.hooks[i].board_repository_id;
        assert(post.hooks[i] == pre.hooks[i]);
        assert(pre.has_link_with_id(lid));
        let w = pre.link_index_of(lid);
        assert(post.links[w].id == pre.links[w].id);
        assert(post.links[w].id == lid);
    }
    assert forall|i: int| 0 <= i < post.links.len() implies 0 <= (#[trigger] post.links[i]).id
        < post.next_link_id by {
        assert(post.links[i].id == pre.links[i].id);
    }
    assert forall|i: int| 0 <= i < post.hooks.len() implies 0 <= (#[trigger] post.hooks[i]).id
        < post.next_hook_id by {
        assert(post.hooks[i] == pre.hooks[i]);
    }
}

/// Replacing a webhook record by one with the same id and owning link
/// keeps the store well-formed.
pub proof fn lemma_wf_after_hook_update(pre: StoreView, post: StoreView, k: int, h: GithubWebhookView)
    requires
        pre.wf(),
        0 <= k < pre.hooks.len(),
        h.id == pre.hooks[k].id,
        h.board_repository_id == pre.hooks[k].board_repository_id,
        post == (StoreView { hooks: pre.hooks.update(k, h), ..pre }),
    ensures
        post.wf(),
{
    assert forall|i: int, j: int| 0 <= i < j < post.hooks.len() implies (
    #[trigger] post.hooks[i]).id != (#[trigger] post.hooks[j]).id && post.hooks[
    i].board_repository_id != post.hooks[j].board_repository_id by {
        assert(post.hooks[i].id == pre.hooks[i].id && post.hooks[i].board_repository_id
            == pre.hooks[i].board_repository_id);
        assert(post.hooks[j].id == pre.hooks[j].id && post.hooks[j].board_repository_id
            == pre.hooks[j].board_repository_id);
        assert(pre.hooks[i].id != pre.hooks[j].id);
    }
    assert forall|i: int| 0 <= i < post.hooks.len() implies post.has_link_with_id(
        (#[trigger] post.hooks[i]).board_repository_id,
    ) by {
        let lid = post.hooks[i].board_repository_id;
        assert(post.hooks[i].board_repository_id == pre.hooks[i].board_repository_id);
        assert(pre.has_link_with_id(lid));
        let w = pre.link_index_of(lid);
        assert(post.links[w].id == lid);
    }
    assert forall|i: int| 0 <= i < post.hooks.len() implies 0 <= (#[trigger] post.hooks[i]).id
        < post.next_hook_id by {
        assert(post.hooks[i].id == pre.hooks[i].id);
    }
}

/// Linear scan for a webhook id among collected records.
fn vec_contains_webhook_id(result: &Vec<GithubWebhook>, webhook_id: i64) -> (b: bool)
    ensures
        b == contains_webhook_id(
            result@.map_values(|h: GithubWebhook| h@),
            webhook_id as int,
        ),
{
    let n = result.len();
    let mut i: usize = 0;
    while i < n
        invariant
            n == result@.len(),
            i <= n,
            forall|j: int| 0 <= j < i ==> (#[trigger] result@[j]).webhook_id != webhook_id,
        decreases n - i,
    {
        if result[i].webhook_id == webhook_id {
            proof {
                assert(result@.map_values(|h: GithubWebhook| h@)[i as int].webhook_id
                    == webhook_id as int);
            }
            return true;
        }
        i += 1;
    }
    proof {
        let ghost mapped = result@.map_values(|h: GithubWebhook| h@);
        assert forall|j: int| 0 <= j < mapped.len() implies (#[trigger] mapped[j]).webhook_id
            != webhook_id as int by {
            assert(result@[j].webhook_id != webhook_id);
        }
    }
    false
}

/// In-memory implementation of the link store.
pub struct LinkStore {
    links: Vec<BoardRepository>,
    hooks: Vec<GithubWebhook>,
    next_link_id: i32,
    next_hook_id: i32,
}

impl View for LinkStore {
    type V = StoreView;

    closed spec fn view(&self) -> StoreView {
        StoreView {
            links: self.links@.map_values(|l: BoardRepository| l@),
            hooks: self.hooks@.map_values(|h: GithubWebhook| h@),
            next_link_id: self.next_link_id as int,
            next_hook_id: self.next_hook_id as int,
        }
    }
}

impl LinkStore {
    /// An empty store.
    pub fn new() -> (s: LinkStore)
        ensures
            s@.inv(),
            s@.links.len() == 0,
            s@.hooks.len() == 0,
            s@.next_link_id == 0,
            s@.next_hook_id == 0,
    {
        LinkStore { links: Vec::new(), hooks: Vec::new(), next_link_id: 0, next_hook_id: 0 }
    }

    /// True while id allocation can still serve one more link and record.
    pub fn has_capacity(&self) -> (b: bool)
        ensures
            b == (self@.next_link_id < i32::MAX && self@.next_hook_id < i32::MAX),
    {
        self.next_link_id < i32::MAX && self.next_hook_id < i32::MAX
    }

    fn find_link_index_by_board(&self, board_id: i64) -> (r: Option<usize>)
        requires
            self@.wf(),
        ensures
            r is Some <==> self@.has_link_for_board(board_id as int),
            r matches Some(k) ==> 0 <= k < self@.links.len() && self@.links[k as int]
                == self@.link_for_board(board_id as int) && self@.links[k as int].board_id
                == board_id as int && self@.link_index_for_board(board_id as int) == k as int,
    {
        let n = self.links.len();
        let mut i: usize = 0;
        while i < n
            invariant
                n == self.links.len(),
                i <= n,
                self@.wf(),
                forall|j: int| 0 <= j < i ==> (#[trigger] self@.links[j]).board_id != board_id,
            decreases n - i,
        {
            if self.links[i].board_id == board_id {
                proof {
                    assert(self.links@[i as int].board_id == board_id);
                    assert(self@.links[i as int].board_id == board_id as int);
                    assert(self@.has_link_for_board(board_id as int));
                    let k = self@.link_index_for_board(board_id as int);
                    assert(0 <= k < self@.links.len() && self@.links[k].board_id
                        == board_id as int);
                    assert(k == i as int);
                }
                return Some(i);
            }
            i += 1;
        }
        None
    }

    fn find_link_index_by_id(&self, id: i32) -> (r: Option<usize>)
        requires
            self@.wf(),
        ensures
            r is Some <==> self@.has_link_with_id(id as int),
            r matches Some(k) ==> 0 <= k < self@.links.len() && self@.links[k as int]
                == self@.link_with_id(id as int) && self@.links[k as int].id == id as int
                && self@.link_index_of(id as int) == k as int,
    {
        let n = self.links.len();
        let mut i: usize = 0;
        while i < n
            invariant
                n == self.links.len(),
                i <= n,
                self@.wf(),
                forall|j: int| 0 <= j < i ==> (#[trigger] self@.links[j]).id != id,
            decreases n - i,
        {
            if self.links[i].id == id {
                proof {
                    assert(self.links@[i as int].id == id);
                    assert(self@.links[i as int].id == id as int);
                    assert(self@.has_link_with_id(id as int));
                    let k = self@.link_index_of(id as int);
                    assert(0 <= k < self@.links.len() && self@.links[k].id == id as int);
                    assert(k == i as int);
                }
                return Some(i);
            }
            i += 1;
        }
        None
    }

    fn find_hook_index_by_link(&self, board_repository_id: i32) -> (r: Option<usize>)
        requires
            self@.wf(),
        ensures
            r is Some <==> self@.has_hook_for_link(board_repository_id as int),
            r matches Some(k) ==> 0 <= k < self@.hooks.len() && self@.hooks[k as int]
                == self@.hook_for_link(board_repository_id as int) && self@.hooks[
                k as int
            ].board_repository_id == board_repository_id as int && self@.hook_index_for_link(
                board_repository_id as int,
            ) == k as int,
    {
        let n = self.hooks.len();
        let mut i: usize = 0;
        while i < n
            invariant
                n == self.hooks.len(),
                i <= n,
                self@.wf(),
                forall|j: int|
                    0 <= j < i ==> (#[trigger] self@.hooks[j]).board_repository_id
                        != board_repository_id,
            decreases n - i,
        {
            if self.hooks[i].board_repository_id == board_repository_id {
                proof {
                    assert(self.hooks@[i as int].board_repository_id == board_repository_id);
                    assert(self@.hooks[i as int].board_repository_id
                        == board_repository_id as int);
                    assert(self@.has_hook_for_link(board_repository_id as int));
                    let k = self@.hook_index_for_link(board_repository_id as int);
                    assert(0 <= k < self@.hooks.len() && self@.hooks[k].board_repository_id
                        == board_repository_id as int);
                    assert(k == i as int);
                }
                return Some(i);
            }
            i += 1;
        }
        None
    }

    fn find_hook_index_by_id(&self, id: i32) -> (r: Option<usize>)
        requires
            self@.wf(),
        ensures
            r is Some <==> self@.has_hook_with_id(id as int),
            r matches Some(k) ==> 0 <= k < self@.hooks.len() && self@.hooks[k as int]
                == self@.hooks[self@.hook_index_of(id as int)] && self@.hooks[k as int].id
                == id as int && self@.hook_index_of(id as int) == k as int,
    {
        let n = self.hooks.len();
        let mut i: usize = 0;
        while i < n
            invariant
                n == self.hooks.len(),
                i <= n,
                self@.wf(),
                forall|j: int| 0 <= j < i ==> (#[trigger] self@.hooks[j]).id != id,
            decreases n - i,
        {
            if self.hooks[i].id == id {
                proof {
                    assert(self.hooks@[i as int].id == id);
                    assert(self@.hooks[i as int].id == id as int);
                    assert(self@.has_hook_with_id(id as int));
                    let k = self@.hook_index_of(id as int);
                    assert(0 <= k < self@.hooks.len() && self@.hooks[k].id == id as int);
                    assert(k == i as int);
                }
                return Some(i);
            }
            i += 1;
        }
        None
    }

    /// Create a link; fails with `AlreadyExists` when the board is already
    /// linked, and with `InternalError` when id allocation is exhausted.
    pub fn create_board_repository(&mut self, data: &NewBoardRepository) -> (r: Result<
        BoardRepository,
        GITrelloError,
    >)
        requires
            old(self)@.wf(),
        ensures
            final(self)@.wf(),
            old(self)@.has_link_for_board(data.board_id as int) ==> (r matches Err(e) && e matches
                GITrelloError::AlreadyExists { .. }) && final(self)@ == old(self)@,
            !old(self)@.has_link_for_board(data.board_id as int) && old(self)@.next_link_id
                == i32::MAX ==> (r matches Err(e) && e is InternalError) && final(self)@ == old(
                self,
            )@,
            !old(self)@.has_link_for_board(data.board_id as int) && old(self)@.next_link_id
                < i32::MAX ==> (r matches Ok(link) && link@ == (BoardRepositoryView {
                id: old(self)@.next_link_id,
                github_profile_id: data.github_profile_id as int,
                board_id: data.board_id as int,
                repository_name: data.repository_name@,
                repository_owner: data.repository_owner@,
            }) && final(self)@ == (StoreView {
                links: old(self)@.links.push(link@),
                next_link_id: old(self)@.next_link_id + 1,
                ..old(self)@
            })),
    {
        if self.find_link_index_by_board(data.board_id).is_some() {
            return Err(
                GITrelloError::AlreadyExists {
                    message: "a board repository for this board already exists".to_owned(),
                },
            );
        }
        if self.next_link_id == i32::MAX {
            return Err(GITrelloError::InternalError);
        }
        let link = BoardRepository {
            id: self.next_link_id,
            github_profile_id: data.github_profile_id,
            board_id: data.board_id,
            repository_name: data.repository_name.clone(),
            repository_owner: data.repository_owner.clone(),
        };
        let out = link.clone();
        self.links.push(link);
        self.next_link_id = self.next_link_id + 1;
        proof {
            assert(self@.links =~= old(self)@.links.push(out@));
            assert(self@ == (StoreView {
                links: old(self)@.links.push(out@),
                next_link_id: old(self)@.next_link_id + 1,
                ..old(self)@
            }));
            lemma_wf_after_link_push(old(self)@, self@, out@);
        }
        Ok(out)
    }

    /// Look a link up by its board; `NotFound` when the board is unlinked.
    pub fn get_by_board_id(&self, board_id: i64) -> (r: Result<BoardRepository, GITrelloError>)
        requires
            self@.wf(),
        ensures
            r is Ok <==> self@.has_link_for_board(board_id as int),
            r matches Ok(link) ==> link@ == self@.link_for_board(board_id as int),
            r matches Err(e) ==> e matches GITrelloError::NotFound { .. },
    {
        match self.find_link_index_by_board(board_id) {
            Some(k) => Ok(self.links[k].clone()),
            None => Err(
                GITrelloError::NotFound {
                    message: "board repository does not exist for this board".to_owned(),
                },
            ),
        }
    }

    /// Look a link up by its id; `NotFound` when there is none.
    pub fn get_by_id(&self, id: i32) -> (r: Result<BoardRepository, GITrelloError>)
        requires
            self@.wf(),
        ensures
            r is Ok <==> self@.has_link_with_id(id as int),
            r matches Ok(link) ==> link@ == self@.link_with_id(id as int),
            r matches Err(e) ==> e matches GITrelloError::NotFound { .. },
    {
        match self.find_link_index_by_id(id) {
            Some(k) => Ok(self.links[k].clone()),
            None => Err(
                GITrelloError::NotFound { message: "board repository does not exist".to_owned() },
            ),
        }
    }

    /// All links naming the repository `(owner, name)`, in store order.
    pub fn get_links_by_repository_owner_and_name(
        &self,
        repository_owner: &str,
        repository_name: &str,
    ) -> (r: Vec<BoardRepository>)
        ensures
            r@.map_values(|l: BoardRepository| l@) == self@.links_at(
                repository_owner@,
                repository_name@,
            ),
    {
        let owner: String = repository_owner.to_owned();
        let name: String = repository_name.to_owned();
        let ghost p = link_at_pred(repository_owner@, repository_name@);
        let mut result: Vec<BoardRepository> = Vec::new();
        let n = self.links.len();
        let mut i: usize = 0;
        while i < n
            invariant
                n == self.links.len(),
                i <= n,
                owner@ == repository_owner@,
                name@ == repository_name@,
                p == link_at_pred(repository_owner@, repository_name@),
                result@.map_values(|l: BoardRepository| l@) == self@.links.take(i as int).filter(p),
            decreases n - i,
        {
            let ghost prefix = self@.links.take(i as int);
            let matched = self.links[i].repository_owner == owner && self.links[i].repository_name
                == name;
            if matched {
                result.push(self.links[i].clone());
            }
            proof {
                assert(self@.links.take(i + 1) =~= prefix.push(self@.links[i as int]));
                lemma_filter_push(prefix, self@.links[i as int], p);
                if matched {
                    assert(result@.map_values(|l: BoardRepository| l@) =~= prefix.filter(p).push(
                        self@.links[i as int],
                    ));
                }
            }
            i += 1;
        }
        proof {
            assert(self@.links.take(n as int) =~= self@.links);
        }
        result
    }

    /// All links created through the given provider profile, in store
    /// order.
    pub fn get_links_by_github_profile_id(&self, github_profile_id: i32) -> (r: Vec<
        BoardRepository,
    >)
        ensures
            r@.map_values(|l: BoardRepository| l@) == self@.links.filter(
                link_profile_pred(github_profile_id as int),
            ),
    {
        let ghost p = link_profile_pred(github_profile_id as int);
        let mut result: Vec<BoardRepository> = Vec::new();
        let n = self.links.len();
        let mut i: usize = 0;
        while i < n
            invariant
                n == self.links.len(),
                i <= n,
                p == link_profile_pred(github_profile_id as int),
                result@.map_values(|l: BoardRepository| l@) == self@.links.take(i as int).filter(p),
            decreases n - i,
        {
            let ghost prefix = self@.links.take(i as int);
            let matched = self.links[i].github_profile_id == github_profile_id;
            if matched {
                result.push(self.links[i].clone());
            }
            proof {
                assert(self@.links.take(i + 1) =~= prefix.push(self@.links[i as int]));
                lemma_filter_push(prefix, self@.links[i as int], p);
                if matched {
                    assert(result@.map_values(|l: BoardRepository| l@) =~= prefix.filter(p).push(
                        self@.links[i as int],
                    ));
                }
            }
            i += 1;
        }
        proof {
            assert(self@.links.take(n as int) =~= self@.links);
        }
        result
    }

    fn hook_owned_by_profile(&self, hook: &GithubWebhook, github_profile_id: i32) -> (b: bool)
        requires
            self@.wf(),
        ensures
            b == self@.owned_by_profile(hook@, github_profile_id as int),
    {
        match self.find_link_index_by_id(hook.board_repository_id) {
            Some(k) => self.links[k].github_profile_id == github_profile_id,
            None => false,
        }
    }

    /// The webhook records of the given profile's links, one per
    /// provider-side webhook id (its first occurrence), in store order.
    pub fn get_distinct_webhooks_by_github_profile_id(&self, github_profile_id: i32) -> (r: Vec<
        GithubWebhook,
    >)
        requires
            self@.wf(),
        ensures
            r@.map_values(|h: GithubWebhook| h@) == dedup_by_webhook_id(
                self@.hooks_of_profile(github_profile_id as int),
            ),
    {
        let ghost p = self@.profile_hook_pred(github_profile_id as int);
        let mut owned: Vec<GithubWebhook> = Vec::new();
        let n = self.hooks.len();
        let mut i: usize = 0;
        while i < n
            invariant
                n == self.hooks.len(),
                i <= n,
                self@.wf(),
                p == self@.profile_hook_pred(github_profile_id as int),
                owned@.map_values(|h: GithubWebhook| h@) == self@.hooks.take(i as int).filter(p),
            decreases n - i,
        {
            let ghost prefix = self@.hooks.take(i as int);
            let matched = self.hook_owned_by_profile(&self.hooks[i], github_profile_id);
            if matched {
                owned.push(self.hooks[i].clone());
            }
            proof {
                assert(self@.hooks.take(i + 1) =~= prefix.push(self@.hooks[i as int]));
                lemma_filter_push(prefix, self@.hooks[i as int], p);
                if matched {
                    assert(owned@.map_values(|h: GithubWebhook| h@) =~= prefix.filter(p).push(
                        self@.hooks[i as int],
                    ));
                }
            }
            i += 1;
        }
        proof {
            assert(self@.hooks.take(n as int) =~= self@.hooks);
        }
        let ghost all = self@.hooks_of_profile(github_profile_id as int);
        let mut result: Vec<GithubWebhook> = Vec::new();
        let m = owned.len();
        let mut j: usize = 0;
        while j < m
            invariant
                m == owned@.len(),
                j <= m,
                owned@.map_values(|h: GithubWebhook| h@) == all,
                result@.map_values(|h: GithubWebhook| h@) == dedup_by_webhook_id(
                    all.take(j as int),
                ),
            decreases m - j,
        {
            let ghost prefix = all.take(j as int);
            let seen = vec_contains_webhook_id(&result, owned[j].webhook_id);
            proof {
                assert(owned@[j as int]@ == all[j as int]);
                lemma_dedup_same_ids(prefix, all[j as int].webhook_id);
                assert(all.take(j + 1) =~= prefix.push(all[j as int]));
                lemma_dedup_push(prefix, all[j as int]);
            }
            if !seen {
                result.push(owned[j].clone());
                proof {
                    assert(result@.map_values(|h: GithubWebhook| h@) =~= dedup_by_webhook_id(
                        prefix,
                    ).push(all[j as int]));
                }
            }
            j += 1;
        }
        proof {
            assert(all.take(m as int) =~= all);
        }
        result
    }

    fn hook_resolves(&self, hook: &GithubWebhook, owner: &String, name: &String) -> (b: bool)
        requires
            self@.wf(),
        ensures
            b == self@.resolves_to(hook@, owner@, name@),
    {
        match self.find_link_index_by_id(hook.board_repository_id) {
            Some(k) => {
                self.links[k].repository_owner == *owner && self.links[k].repository_name == *name
            },
            None => false,
        }
    }

    /// All webhook records resolving to the repository `(name, owner)`, in
    /// store order.
    pub fn get_webhooks_by_repository_name_and_owner(
        &self,
        repository_name: &str,
        repository_owner: &str,
    ) -> (r: Vec<GithubWebhook>)
        requires
            self@.wf(),
        ensures
            r@.map_values(|h: GithubWebhook| h@) == self@.hooks_at(
                repository_owner@,
                repository_name@,
            ),
    {
        let owner: String = repository_owner.to_owned();
        let name: String = repository_name.to_owned();
        let ghost p = self@.resolves_pred(repository_owner@, repository_name@);
        let mut result: Vec<GithubWebhook> = Vec::new();
        let n = self.hooks.len();
        let mut i: usize = 0;
        while i < n
            invariant
                n == self.hooks.len(),
                i <= n,
                self@.wf(),
                owner@ == repository_owner@,
                name@ == repository_name@,
                p == self@.resolves_pred(repository_owner@, repository_name@),
                result@.map_values(|h: GithubWebhook| h@) == self@.hooks.take(i as int).filter(p),
            decreases n - i,
        {
            let ghost prefix = self@.hooks.take(i as int);
            let matched = self.hook_resolves(&self.hooks[i], &owner, &name);
            if matched {
                result.push(self.hooks[i].clone());
            }
            proof {
                assert(self@.hooks.take(i + 1) =~= prefix.push(self@.hooks[i as int]));
                lemma_filter_push(prefix, self@.hooks[i as int], p);
                if matched {
                    assert(result@.map_values(|h: GithubWebhook| h@) =~= prefix.filter(p).push(
                        self@.hooks[i as int],
                    ));
                }
            }
            i += 1;
        }
        proof {
            assert(self@.hooks.take(n as int) =~= self@.hooks);
        }
        result
    }

    /// The webhook record owned by the given link; `NotFound` when the link
    /// has none.
    pub fn get_webhook_by_board_repository_id(&self, board_repository_id: i32) -> (r: Result<
        GithubWebhook,
        GITrelloError,
    >)
        requires
            self@.wf(),
        ensures
            r is Ok <==> self@.has_hook_for_link(board_repository_id as int),
            r matches Ok(hook) ==> hook@ == self@.hook_for_link(board_repository_id as int),
            r matches Err(e) ==> e matches GITrelloError::NotFound { .. },
    {
        match self.find_hook_index_by_link(board_repository_id) {
            Some(k) => Ok(self.hooks[k].clone()),
            None => Err(
                GITrelloError::NotFound {
                    message: "github webhook does not exist for this board repository".to_owned(),
                },
            ),
        }
    }

    /// Repoint a link to a different repository, keeping everything else.
    pub fn update_repository_data(
        &mut self,
        id: i32,
        repository_owner: &str,
        repository_name: &str,
    ) -> (r: Result<BoardRepository, GITrelloError>)
        requires
            old(self)@.wf(),
        ensures
            final(self)@.wf(),
            !old(self)@.has_link_with_id(id as int) ==> (r matches Err(e) && e matches
                GITrelloError::NotFound { .. }) && final(self)@ == old(self)@,
            old(self)@.has_link_with_id(id as int) ==> (r matches Ok(link) && link@
                == (BoardRepositoryView {
                repository_owner: repository_owner@,
                repository_name: repository_name@,
                ..old(self)@.link_with_id(id as int)
            }) && final(self)@ == (StoreView {
                links: old(self)@.links.update(old(self)@.link_index_of(id as int), link@),
                ..old(self)@
            })),
    {
        match self.find_link_index_by_id(id) {
            Some(k) => {
                let mut link = self.links.remove(k);
                link.repository_owner = repository_owner.to_owned();
                link.repository_name = repository_name.to_owned();
                let out = link.clone();
                self.links.insert(k, link);
                proof {
                    assert(out@.id == old(self)@.links[k as int].id);
                    assert(out@.board_id == old(self)@.links[k as int].board_id);
                    assert(self@.links =~= old(self)@.links.update(k as int, out@));
                    assert(self@ == (StoreView {
                        links: old(self)@.links.update(old(self)@.link_index_of(id as int), out@),
                        ..old(self)@
                    }));
                    lemma_wf_after_link_update(old(self)@, self@, k as int, out@);
                }
                Ok(out)
            },
            None => Err(
                GITrelloError::NotFound { message: "board repository does not exist".to_owned() },
            ),
        }
    }

    /// Create a webhook record for a link. Fails with `NotFound` when the
    /// link does not exist, `AlreadyExists` when the link already has a
    /// record, and `InternalError` when id allocation is exhausted.
    pub fn create_github_webhook(&mut self, data: &NewGithubWebhook) -> (r: Result<
        GithubWebhook,
        GITrelloError,
    >)
        requires
            old(self)@.wf(),
        ensures
            final(self)@.wf(),
            !old(self)@.has_link_with_id(data.board_repository_id as int) ==> (r matches Err(e)
                && e matches GITrelloError::NotFound { .. }) && final(self)@ == old(self)@,
            old(self)@.has_link_with_id(data.board_repository_id as int) && old(
                self,
            )@.has_hook_for_link(data.board_repository_id as int) ==> (r matches Err(e) && e matches
                GITrelloError::AlreadyExists { .. }) && final(self)@ == old(self)@,
            old(self)@.has_link_with_id(data.board_repository_id as int) && !old(
                self,
            )@.has_hook_for_link(data.board_repository_id as int) && old(self)@.next_hook_id
                == i32::MAX ==> (r matches Err(e) && e is InternalError) && final(self)@ == old(
                self,
            )@,
            old(self)@.has_link_with_id(data.board_repository_id as int) && !old(
                self,
            )@.has_hook_for_link(data.board_repository_id as int) && old(self)@.next_hook_id
                < i32::MAX ==> (r matches Ok(hook) && hook@ == (GithubWebhookView {
                id: old(self)@.next_hook_id,
                webhook_id: data.webhook_id as int,
                url: data.url@,
                board_repository_id: data.board_repository_id as int,
            }) && final(self)@ == (StoreView {
                hooks: old(self)@.hooks.push(hook@),
                next_hook_id: old(self)@.next_hook_id + 1,
                ..old(self)@
            })),
    {
        if self.find_link_index_by_id(data.board_repository_id).is_none() {
            return Err(
                GITrelloError::NotFound { message: "board repository does not exist".to_owned() },
            );
        }
        if self.find_hook_index_by_link(data.board_repository_id).is_some() {
            return Err(
                GITrelloError::AlreadyExists {
                    message: "a github webhook for this board repository already exists".to_owned(),
                },
            );
        }
        if self.next_hook_id == i32::MAX {
            return Err(GITrelloError::InternalError);
        }
        let hook = GithubWebhook {
            id: self.next_hook_id,
            webhook_id: data.webhook_id,
            url: data.url.clone(),
            board_repository_id: data.board_repository_id,
        };
        let out = hook.clone();
        self.hooks.push(hook);
        self.next_hook_id = self.next_hook_id + 1;
        proof {
            assert(self@.hooks =~= old(self)@.hooks.push(out@));
            assert(self@ == (StoreView {
                hooks: old(self)@.hooks.push(out@),
                next_hook_id: old(self)@.next_hook_id + 1,
                ..old(self)@
            }));
            lemma_wf_after_hook_push(old(self)@, self@, out@);
        }
        Ok(out)
    }

    /// Point an existing webhook record at a different provider-side
    /// webhook id; `NotFound` when there is no record with this id.
    pub fn update_webhook_id(&mut self, id: i32, webhook_id: i64) -> (r: Result<
        GithubWebhook,
        GITrelloError,
    >)
        requires
            old(self)@.wf(),
        ensures
            final(self)@.wf(),
            !old(self)@.has_hook_with_id(id as int) ==> (r matches Err(e) && e matches
                GITrelloError::NotFound { .. }) && final(self)@ == old(self)@,
            old(self)@.has_hook_with_id(id as int) ==> (r matches Ok(hook) && hook@
                == (GithubWebhookView {
                webhook_id: webhook_id as int,
                ..old(self)@.hooks[old(self)@.hook_index_of(id as int)]
            }) && final(self)@ == (StoreView {
                hooks: old(self)@.hooks.update(old(self)@.hook_index_of(id as int), hook@),
                ..old(self)@
            })),
    {
        match self.find_hook_index_by_id(id) {
            Some(k) => {
                let mut hook = self.hooks.remove(k);
                hook.webhook_id = webhook_id;
                let out = hook.clone();
                self.hooks.insert(k, hook);
                proof {
                    assert(out@.id == old(self)@.hooks[k as int].id);
                    assert(out@.board_repository_id == old(self)@.hooks[
                        k as int
                    ].board_repository_id);
                    assert(self@.hooks =~= old(self)@.hooks.update(k as int, out@));
                    assert(self@ == (StoreView {
                        hooks: old(self)@.hooks.update(old(self)@.hook_index_of(id as int), out@),
                        ..old(self)@
                    }));
                    lemma_wf_after_hook_update(old(self)@, self@, k as int, out@);
                }
                Ok(out)
            },
            None => Err(
                GITrelloError::NotFound { message: "github webhook does not exist".to_owned() },
            ),
        }
    }

    /// Delete a link together with its webhook record; `NotFound` when the
    /// link does not exist.
    pub fn delete_board_repository(&mut self, id: i32) -> (r: Result<(), GITrelloError>)
        requires
            old(self)@.wf(),
        ensures
            final(self)@.wf(),
            !old(self)@.has_link_with_id(id as int) ==> (r matches Err(e) && e matches
                GITrelloError::NotFound { .. }) && final(self)@ == old(self)@,
            old(self)@.has_link_with_id(id as int) ==> r is Ok && final(self)@ == (StoreView {
                links: old(self)@.links.remove(old(self)@.link_index_of(id as int)),
                hooks: (if old(self)@.has_hook_for_link(id as int) {
                    old(self)@.hooks.remove(old(self)@.hook_index_for_link(id as int))
                } else {
                    old(self)@.hooks
                }),
                ..old(self)@
            }),
            !final(self)@.has_link_with_id(id as int),
            !final(self)@.has_hook_for_link(id as int),
    {
        let k = match self.find_link_index_by_id(id) {
            Some(k) => k,
            None => {
                return Err(
                    GITrelloError::NotFound {
                        message: "board repository does not exist".to_owned(),
                    },
                );
            },
        };
        let hook_index = self.find_hook_index_by_link(id);
        self.links.remove(k);
        proof {
            assert(self@.links =~= old(self)@.links.remove(k as int));
        }
        match hook_index {
            Some(hk) => {
                self.hooks.remove(hk);
                proof {
                    assert(self@.hooks =~= old(self)@.hooks.remove(hk as int));
                }
            },
            None => (),
        }
        proof {
            let pre = old(self)@;
            let post = self@;
            assert(post == (StoreView {
                links: pre.links.remove(pre.link_index_of(id as int)),
                hooks: (if pre.has_hook_for_link(id as int) {
                    pre.hooks.remove(pre.hook_index_for_link(id as int))
                } else {
                    pre.hooks
                }),
                ..pre
            }));
            self.lemma_wf_after_delete(pre, id as int, k as int);
        }
        Ok(())
    }

    proof fn lemma_wf_after_delete(&self, pre: StoreView, id: int, k: int)
        requires
            pre.wf(),
            0 <= k < pre.links.len(),
            pre.links[k].id == id,
            pre.link_index_of(id) == k,
            self@ == (StoreView {
                links: pre.links.remove(k),
                hooks: (if pre.has_hook_for_link(id) {
                    pre.hooks.remove(pre.hook_index_for_link(id))
                } else {
                    pre.hooks
                }),
                ..pre
            }),
        ensures
            self@.wf(),
            !self@.has_link_with_id(id),
            !self@.has_hook_for_link(id),
    {
        let post = self@;
        assert forall|i: int| 0 <= i < post.links.len() implies (#[trigger] post.links[i]).id
            != id by {
            if i < k {
                assert(post.links[i] == pre.links[i]);
                assert(pre.links[i].id != pre.links[k].id);
            } else {
                assert(post.links[i] == pre.links[i + 1]);
                assert(pre.links[k].id != pre.links[i + 1].id);
            }
        }
        assert forall|i: int, j: int| 0 <= i < j < post.links.len() implies (
        #[trigger] post.links[i]).id != (#[trigger] post.links[j]).id && post.links[i].board_id
            != post.links[j].board_id by {
            let pi = if i < k {
                i
            } else {
                i + 1
            };
            let pj = if j < k {
                j
            } else {
                j + 1
            };
            assert(post.links[i] == pre.links[pi]);
            assert(post.links[j] == pre.links[pj]);
            assert(pre.links[pi].id != pre.links[pj].id);
        }
        if pre.has_hook_for_link(id) {
            let hk = pre.hook_index_for_link(id);
            assert(0 <= hk < pre.hooks.len() && pre.hooks[hk].board_repository_id == id);
            assert forall|i: int, j: int| 0 <= i < j < post.hooks.len() implies (
            #[trigger] post.hooks[i]).id != (#[trigger] post.hooks[j]).id && post.hooks[
            i].board_repository_id != post.hooks[j].board_repository_id by {
                let pi = if i < hk {
                    i
                } else {
                    i + 1
                };
                let pj = if j < hk {
                    j
                } else {
                    j + 1
                };
                assert(post.hooks[i] == pre.hooks[pi]);
                assert(post.hooks[j] == pre.hooks[pj]);
                assert(pre.hooks[pi].id != pre.hooks[pj].id);
            }
            assert forall|i: int| 0 <= i < post.hooks.len() implies (
            #[trigger] post.hooks[i]).board_repository_id != id by {
                let pi = if i < hk {
                    i
                } else {
                    i + 1
                };
                assert(post.hooks[i] == pre.hooks[pi]);
                if pi != hk {
                    assert(pre.hooks[pi].board_repository_id != pre.hooks[hk].board_repository_id);
                }
            }
        } else {
            assert(post.hooks =~= pre.hooks);
            assert forall|i: int| 0 <= i < post.hooks.len() implies (
            #[trigger] post.hooks[i]).board_repository_id != id by {
                if post.hooks[i].board_repository_id == id {
                    assert(pre.has_hook_for_link(id));
                }
            }
        }
        assert forall|i: int| 0 <= i < post.hooks.len() implies post.has_link_with_id(
            (#[trigger] post.hooks[i]).board_repository_id,
        ) by {
            let lid = post.hooks[i].board_repository_id;
            if pre.has_hook_for_link(id) {
                let hk = pre.hook_index_for_link(id);
                let pi = if i < hk {
                    i
                } else {
                    i + 1
                };
                assert(post.hooks[i] == pre.hooks[pi]);
                assert(pre.has_link_with_id(lid));
            } else {
                assert(post.hooks[i] == pre.hooks[i]);
                assert(pre.has_link_with_id(lid));
            }
            let w = pre.link_index_of(lid);
            assert(pre.links[w].id == lid);
            assert(lid != id);
            assert(w != k);
            let qi = if w < k {
                w
            } else {
                w - 1
            };
            assert(post.links[qi] == pre.links[w]);
            assert(post.has_link_with_id(lid));
        }
        assert forall|i: int| 0 <= i < post.links.len() implies 0 <= (
        #[trigger] post.links[i]).id < post.next_link_id by {
            let pi = if i < k {
                i
            } else {
                i + 1
            };
            assert(post.links[i] == pre.links[pi]);
        }
        assert forall|i: int| 0 <= i < post.hooks.len() implies 0 <= (#[trigger] post.hooks[i]).id
            < post.next_hook_id by {
            if pre.has_hook_for_link(id) {
                let hk = pre.hook_index_for_link(id);
                let pi = if i < hk {
                    i
                } else {
                    i + 1
                };
                assert(post.hooks[i] == pre.hooks[pi]);
            }
        }
    }
}

} // verus!
