//! Value objects of the project-management service API and the
//! classification of its responses into the error taxonomy.
//!
//! The embedding program performs the HTTP exchange and hands the outcome
//! (status code plus the parse attempts on the body) to the classifiers
//! here; a transport-level failure is mapped to
//! `GITrelloError::HttpRequestError` before anything is classified.

use vstd::prelude::*;

use crate::errors::GITrelloError;

verus! {

/// Error body shape of the project-management service.
pub struct APIError {
    pub error_message: String,
    pub error_code: i16,
}

/// Request body of the board-permission lookup.
pub struct GetBoardPermissionsRequest {
    pub user_id: i64,
    pub board_id: i64,
}

/// What the permission service granted the caller on one board.
#[derive(Clone, Copy)]
pub struct Permissions {
    pub can_read: bool,
    pub can_mutate: bool,
    pub can_delete: bool,
}

/// Request body of a work-item creation call.
pub struct CreateTicketRequest {
    pub board_id: i64,
    pub title: String,
    pub body: String,
}

/// Mathematical view of a `CreateTicketRequest`.
pub ghost struct CreateTicketView {
    pub board_id: int,
    pub title: Seq<char>,
    pub body: Seq<char>,
}

impl View for CreateTicketRequest {
    type V = CreateTicketView;

    open spec fn view(&self) -> CreateTicketView {
        CreateTicketView {
            board_id: self.board_id as int,
            title: self.title@,
            body: self.body@,
        }
    }
}

/// Classify a board-permission response. `permissions` is the attempt to
/// read the body as `Permissions`; `error_message` is the attempt to read
/// it as `APIError`; `raw_body` is the body text itself.
pub fn process_board_permissions_response(
    status: u16,
    permissions: Option<Permissions>,
    error_message: Option<String>,
    raw_body: &str,
) -> (r: Result<Permissions, GITrelloError>)
    ensures
        status == 200 && permissions is Some ==> r == Ok::<Permissions, GITrelloError>(
            permissions.unwrap(),
        ),
        status == 200 && permissions is None ==> (r matches Err(e) && e matches
            GITrelloError::GITrelloAPIClientError { message } && message@
            == "failed to read board permissions from the response body"@),
        status != 200 && error_message is Some ==> (r matches Err(e) && e matches
            GITrelloError::GITrelloAPIClientError { message } && message@
            == error_message.unwrap()@),
        status != 200 && error_message is None ==> (r matches Err(e) && e matches
            GITrelloError::GITrelloAPIClientError { message } && message@ == raw_body@),
{
    if status == 200 {
        match permissions {
            Some(p) => Ok(p),
            None => Err(
                GITrelloError::GITrelloAPIClientError {
                    message: "failed to read board permissions from the response body".to_owned(),
                },
            ),
        }
    } else {
        match error_message {
            Some(message) => Err(GITrelloError::GITrelloAPIClientError { message }),
            None => Err(GITrelloError::GITrelloAPIClientError { message: raw_body.to_owned() }),
        }
    }
}

/// Classify a work-item creation response; the call carries no payload back.
pub fn process_create_ticket_response(
    status: u16,
    error_message: Option<String>,
    raw_body: &str,
) -> (r: Result<(), GITrelloError>)
    ensures
        status == 200 ==> r is Ok,
        status != 200 && error_message is Some ==> (r matches Err(e) && e matches
            GITrelloError::GITrelloAPIClientError { message } && message@
            == error_message.unwrap()@),
        status != 200 && error_message is None ==> (r matches Err(e) && e matches
            GITrelloError::GITrelloAPIClientError { message } && message@ == raw_body@),
{
    if status == 200 {
        Ok(())
    } else {
        match error_message {
            Some(message) => Err(GITrelloError::GITrelloAPIClientError { message }),
            None => Err(GITrelloError::GITrelloAPIClientError { message: raw_body.to_owned() }),
        }
    }
}

} // verus!
