//! The inbound event consumer: on an issue-opened event it computes one
//! work-item creation per link pointing at the event's repository.
//!
//! The embedding program receives the provider callback, parses the body,
//! and hands the outcome to `process`; it then issues the returned
//! work-item creations concurrently and independently, so one failing
//! call cannot prevent the others.

use vstd::prelude::*;

use crate::errors::GITrelloError;
use crate::github_api::split_bytes_at_first;
use crate::github_api::Issue;
use crate::github_api::Repository;
use crate::gitrello_api::CreateTicketRequest;
use crate::gitrello_api::CreateTicketView;
use crate::models::BoardRepositoryView;
use crate::request_data::IssueWebhookRequest;
use crate::store::LinkStore;
use crate::store::StoreView;

verus! {

/// The body of a provider callback, as the embedding program could read
/// it: not JSON at all, JSON of some other shape, or an issue event.
pub enum WebhookPayload {
    MalformedJson,
    Unrecognized,
    Issue(IssueWebhookRequest),
}

/// The work items owed for an issue opened on `full_name`: one per link
/// at the repository the full name splits into, in store order.
pub open spec fn issue_tickets(
    s: StoreView,
    full_name: Seq<char>,
    title: Seq<char>,
    body: Seq<char>,
) -> Seq<CreateTicketView> {
    let parts = split_bytes_at_first(vstd::utf8::encode_utf8(full_name), 47u8);
    let owner = vstd::utf8::decode_utf8(parts.0);
    let name = vstd::utf8::decode_utf8(parts.1);
    s.links_at(owner, name).map_values(
        |l: BoardRepositoryView| CreateTicketView { board_id: l.board_id, title: title, body: body },
    )
}

/// What `process` must return for each event and payload: non-issue
/// events and unrecognized or non-"opened" issue payloads are
/// acknowledged with no work; a body that is not JSON is an internal
/// error; an opened issue yields exactly the owed work items.
pub open spec fn process_result_ok(
    s: StoreView,
    event_type: Seq<char>,
    payload: WebhookPayload,
    r: Result<Vec<CreateTicketRequest>, GITrelloError>,
) -> bool {
    if event_type != "issues"@ {
        r matches Ok(v) && v@.len() == 0
    } else {
        match payload {
            WebhookPayload::MalformedJson => r matches Err(e) && e is InternalError,
            WebhookPayload::Unrecognized => r matches Ok(v) && v@.len() == 0,
            WebhookPayload::Issue(req) => {
                if req.action@ == "opened"@ {
                    r matches Ok(v) && v@.map_values(|t: CreateTicketRequest| t@) == issue_tickets(
                        s,
                        req.repository.full_name@,
                        req.issue.title@,
                        req.issue.body@,
                    )
                } else {
                    r matches Ok(v) && v@.len() == 0
                }
            },
        }
    }
}

/// The work items owed for an opened issue: one per link at the event's
/// repository, each carrying the issue's title and body.
pub fn process_issue_opened(store: &LinkStore, issue: &Issue, repository: &Repository) -> (r: Vec<
    CreateTicketRequest,
>)
    requires
        repository.spec_has_separator(),
    ensures
        r@.map_values(|t: CreateTicketRequest| t@) == issue_tickets(
            store@,
            repository.full_name@,
            issue.title@,
            issue.body@,
        ),
{
    let parts = repository.split_full_name();
    let links = store.get_links_by_repository_owner_and_name(parts.0, parts.1);
    let ghost target = store@.links_at(parts.0@, parts.1@);
    let mut tickets: Vec<CreateTicketRequest> = Vec::new();
    let n = links.len();
    let mut i: usize = 0;
    while i < n
        invariant
            n == links@.len(),
            i <= n,
            links@.map_values(|l: crate::models::BoardRepository| l@) == target,
            tickets@.len() == i,
            forall|j: int|
                0 <= j < i ==> (#[trigger] tickets@[j])@ == (CreateTicketView {
                    board_id: target[j].board_id,
                    title: issue.title@,
                    body: issue.body@,
                }),
        decreases n - i,
    {
        tickets.push(
            CreateTicketRequest {
                board_id: links[i].board_id,
                title: issue.title.clone(),
                body: issue.body.clone(),
            },
        );
        i += 1;
    }
    proof {
        assert(tickets@.map_values(|t: CreateTicketRequest| t@) =~= issue_tickets(
            store@,
            repository.full_name@,
            issue.title@,
            issue.body@,
        ));
    }
    tickets
}

/// Dispatch one provider callback: only `issues` events with action
/// `opened` yield work; every other recognized payload is acknowledged
/// silently, and a body that is not JSON is an internal error.
pub fn process(store: &LinkStore, event_type: &str, payload: &WebhookPayload) -> (r: Result<
    Vec<CreateTicketRequest>,
    GITrelloError,
>)
    requires
        (match *payload {
            WebhookPayload::Issue(req) => (event_type@ == "issues"@ && req.action@
                == "opened"@) ==> req.repository.spec_has_separator(),
            _ => true,
        }),
    ensures
        process_result_ok(store@, event_type@, *payload, r),
{
    let is_issues = event_type.to_owned() == "issues".to_owned();
    if !is_issues {
        return Ok(Vec::new());
    }
    match payload {
        WebhookPayload::MalformedJson => Err(GITrelloError::InternalError),
        WebhookPayload::Unrecognized => Ok(Vec::new()),
        WebhookPayload::Issue(req) => {
            let opened = req.action == "opened".to_owned();
            if opened {
                Ok(process_issue_opened(store, &req.issue, &req.repository))
            } else {
                Ok(Vec::new())
            }
        },
    }
}

} // verus!
