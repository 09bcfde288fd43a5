//! Value objects of the source-control provider API and the classification
//! of its responses into the error taxonomy.
//!
//! The embedding program performs the HTTP exchange and hands the outcome
//! (status code plus the parse attempts on the body) to the classifiers
//! here; a transport-level failure is mapped to
//! `GITrelloError::HttpRequestError` before anything is classified.

use vstd::prelude::*;
use vstd::string::StringSliceAdditionalSpecFns;

use crate::errors::GITrelloError;

verus! {

/// Error body shape of the provider API.
pub struct APIError {
    pub message: String,
}

/// A provider user, as returned by the user-description endpoint.
pub struct GithubUser {
    pub id: i64,
    pub login: String,
}

/// A repository, as returned by the repository-listing endpoint.
pub struct Repository {
    pub id: i64,
    pub full_name: String,
}

/// The parts of a byte sequence before and after the first occurrence of
/// `b`; with no occurrence, the first part is the whole sequence.
pub open spec fn split_bytes_at_first(s: Seq<u8>, b: u8) -> (Seq<u8>, Seq<u8>)
    decreases s.len(),
{
    if s.len() == 0 {
        (Seq::empty(), Seq::empty())
    } else if s[0] == b {
        (Seq::empty(), s.drop_first())
    } else {
        let r = split_bytes_at_first(s.drop_first(), b);
        (seq![s[0]] + r.0, r.1)
    }
}

/// `split_bytes_at_first` splits exactly at the first occurrence.
pub proof fn lemma_split_bytes_at_first(s: Seq<u8>, b: u8, i: int)
    requires
        0 <= i < s.len(),
        s[i] == b,
        forall|j: int| 0 <= j < i ==> s[j] != b,
    ensures
        split_bytes_at_first(s, b).0 =~= s.subrange(0, i),
        split_bytes_at_first(s, b).1 =~= s.subrange(i + 1, s.len() as int),
    decreases i,
{
    if i == 0 {
        assert(s.drop_first() =~= s.subrange(1, s.len() as int));
    } else {
        assert(s[0] != b);
        assert(s.drop_first()[i - 1] == b);
        assert forall|j: int| 0 <= j < i - 1 implies s.drop_first()[j] != b by {
            assert(s[j + 1] != b);
        }
        lemma_split_bytes_at_first(s.drop_first(), b, i - 1);
        assert(seq![s[0]] + s.drop_first().subrange(0, i - 1) =~= s.subrange(0, i));
        assert(s.drop_first().subrange(i, s.drop_first().len() as int) =~= s.subrange(
            i + 1,
            s.len() as int,
        ));
    }
}

impl Repository {
    /// The UTF-8 bytes of the full name.
    pub open spec fn name_bytes(self) -> Seq<u8> {
        vstd::utf8::encode_utf8(self.full_name@)
    }

    /// True when the full name holds an owner/name separator.
    pub open spec fn spec_has_separator(self) -> bool {
        self.name_bytes().contains(47u8)
    }

    /// Runtime check for the owner/name separator in the full name.
    pub fn has_separator(&self) -> (r: bool)
        ensures
            r == self.spec_has_separator(),
    {
        let s: &str = self.full_name.as_str();
        let bytes: &[u8] = s.as_bytes();
        let n: usize = bytes.len();
        let mut i: usize = 0;
        while i < n
            invariant
                bytes@ == vstd::utf8::encode_utf8(self.full_name@),
                n == bytes@.len(),
                i <= n,
                forall|j: int| 0 <= j < i ==> bytes@[j] != 47u8,
            decreases n - i,
        {
            if bytes[i] == 47 {
                return true;
            }
            i += 1;
        }
        false
    }

    /// Split the full name at the first separator: the owner before it,
    /// the repository name after it.
    pub fn split_full_name(&self) -> (r: (&str, &str))
        requires
            self.spec_has_separator(),
        ensures
            r.0.spec_bytes() == split_bytes_at_first(self.name_bytes(), 47u8).0,
            r.1.spec_bytes() == split_bytes_at_first(self.name_bytes(), 47u8).1,
            r.0@ == vstd::utf8::decode_utf8(split_bytes_at_first(self.name_bytes(), 47u8).0),
            r.1@ == vstd::utf8::decode_utf8(split_bytes_at_first(self.name_bytes(), 47u8).1),
    {
        let s: &str = self.full_name.as_str();
        let bytes: &[u8] = s.as_bytes();
        let n: usize = bytes.len();
        let mut i: usize = 0;
        while i < n && bytes[i] != 47
            invariant
                s@ == self.full_name@,
                bytes@ == s.spec_bytes(),
                s.spec_bytes() == self.name_bytes(),
                n == bytes@.len(),
                i <= n,
                forall|j: int| 0 <= j < i ==> bytes@[j] != 47u8,
            decreases n - i,
        {
            i += 1;
        }
        proof {
            if i == n {
                let w = choose|w: int| 0 <= w < bytes@.len() && bytes@[w] == 47u8;
                assert(bytes@[w] != 47u8);
            }
            vstd::utf8::encode_utf8_valid_utf8(self.full_name@);
            vstd::utf8::is_char_boundary_iff_not_is_continuation_byte(s.spec_bytes(), i as int);
            assert(vstd::utf8::is_char_boundary(s.spec_bytes(), i as int));
        }
        let (owner_part, rest) = s.split_at(i);
        proof {
            let sb = s.spec_bytes();
            let rb = rest.spec_bytes();
            assert(rb =~= sb.subrange(i as int, sb.len() as int));
            vstd::utf8::valid_utf8_split(sb, i as int);
            assert(vstd::utf8::valid_utf8(rb));
            assert(rb[0] == 47u8);
            assert(rb.len() >= 1);
            if rb.len() == 1 {
                vstd::utf8::is_char_boundary_start_end_of_seq(rb);
            } else {
                assert(vstd::utf8::is_leading_byte_width_1(rb[0]));
                assert(vstd::utf8::length_of_first_scalar(rb) == 1);
                reveal_with_fuel(vstd::utf8::is_char_boundary, 3);
                assert(vstd::utf8::is_char_boundary(vstd::utf8::pop_first_scalar(rb), 0));
                assert(vstd::utf8::is_char_boundary(rb, 1));
            }
        }
        let (_separator, name_part) = rest.split_at(1);
        proof {
            let sb = s.spec_bytes();
            let rb = rest.spec_bytes();
            assert(owner_part.spec_bytes() =~= sb.subrange(0, i as int));
            assert(name_part.spec_bytes() =~= rb.subrange(1, rb.len() as int));
            assert(name_part.spec_bytes() =~= sb.subrange(i as int + 1, sb.len() as int));
            lemma_split_bytes_at_first(sb, 47u8, i as int);
            vstd::utf8::encode_utf8_decode_utf8(owner_part@);
            vstd::utf8::encode_utf8_decode_utf8(name_part@);
        }
        (owner_part, name_part)
    }
}

/// A provider-side webhook resource.
pub struct Webhook {
    pub id: i64,
}

/// Request body of a webhook creation call.
pub struct CreateWebhook {
    pub config: CreateWebhookConfig,
    pub events: Vec<String>,
}

/// Configuration part of a webhook creation call.
pub struct CreateWebhookConfig {
    pub url: String,
    pub content_type: String,
}

/// An issue as delivered inside a provider event.
pub struct Issue {
    pub html_url: String,
    pub title: String,
    pub body: String,
}

/// Classify a webhook creation response. The provider answers a successful
/// creation with status 201 and the webhook resource in the body; `webhook`
/// is the attempt to read the body as that resource, `error_message` the
/// attempt to read it as `APIError`, `raw_body` the body text itself.
pub fn process_create_webhook_response(
    status: u16,
    webhook: Option<Webhook>,
    error_message: Option<String>,
    raw_body: &str,
) -> (r: Result<Webhook, GITrelloError>)
    ensures
        (status == 201 && webhook is Some) ==> (r matches Ok(res) && res.id
            == webhook.unwrap().id),
        status == 201 && webhook is None ==> (r matches Err(e) && e matches
            GITrelloError::GitHubAPIClientError { message } && message@
            == "failed to read the created webhook from the response body"@),
        status != 201 && error_message is Some ==> (r matches Err(e) && e matches
            GITrelloError::GitHubAPIClientError { message } && message@
            == error_message.unwrap()@),
        status != 201 && error_message is None ==> (r matches Err(e) && e matches
            GITrelloError::GitHubAPIClientError { message } && message@ == raw_body@),
{
    if status == 201 {
        match webhook {
            Some(w) => Ok(w),
            None => Err(
                GITrelloError::GitHubAPIClientError {
                    message: "failed to read the created webhook from the response body".to_owned(),
                },
            ),
        }
    } else {
        match error_message {
            Some(message) => Err(GITrelloError::GitHubAPIClientError { message }),
            None => Err(GITrelloError::GitHubAPIClientError { message: raw_body.to_owned() }),
        }
    }
}

/// Classify a webhook deletion response. The provider answers success with
/// status 204 and no body; a webhook that is already gone (status 404)
/// counts as success too, so deletion is idempotent for callers.
pub fn process_delete_webhook_response(
    status: u16,
    error_message: Option<String>,
    raw_body: &str,
) -> (r: Result<bool, GITrelloError>)
    ensures
        status == 204 || status == 404 ==> r == Ok::<bool, GITrelloError>(true),
        status != 204 && status != 404 && error_message is Some ==> (r matches Err(e)
            && e matches GITrelloError::GitHubAPIClientError { message } && message@
            == error_message.unwrap()@),
        status != 204 && status != 404 && error_message is None ==> (r matches Err(e)
            && e matches GITrelloError::GitHubAPIClientError { message } && message@
            == raw_body@),
{
    if status == 204 || status == 404 {
        Ok(true)
    } else {
        match error_message {
            Some(message) => Err(GITrelloError::GitHubAPIClientError { message }),
            None => Err(GITrelloError::GitHubAPIClientError { message: raw_body.to_owned() }),
        }
    }
}

/// Classify a repository-listing response (status 200 with the caller's
/// repositories in the body).
pub fn process_get_repositories_response(
    status: u16,
    repositories: Option<Vec<Repository>>,
    error_message: Option<String>,
    raw_body: &str,
) -> (r: Result<Vec<Repository>, GITrelloError>)
    ensures
        (status == 200 && repositories is Some) ==> (r matches Ok(res) && res
            == repositories.unwrap()),
        status == 200 && repositories is None ==> (r matches Err(e) && e matches
            GITrelloError::GitHubAPIClientError { message } && message@
            == "failed to read the repositories from the response body"@),
        status != 200 && error_message is Some ==> (r matches Err(e) && e matches
            GITrelloError::GitHubAPIClientError { message } && message@
            == error_message.unwrap()@),
        status != 200 && error_message is None ==> (r matches Err(e) && e matches
            GITrelloError::GitHubAPIClientError { message } && message@ == raw_body@),
{
    if status == 200 {
        match repositories {
            Some(res) => Ok(res),
            None => Err(
                GITrelloError::GitHubAPIClientError {
                    message: "failed to read the repositories from the response body".to_owned(),
                },
            ),
        }
    } else {
        match error_message {
            Some(message) => Err(GITrelloError::GitHubAPIClientError { message }),
            None => Err(GITrelloError::GitHubAPIClientError { message: raw_body.to_owned() }),
        }
    }
}

/// Classify a user-description response (status 200 with a user body).
pub fn process_get_user_response(
    status: u16,
    user: Option<GithubUser>,
    error_message: Option<String>,
    raw_body: &str,
) -> (r: Result<GithubUser, GITrelloError>)
    ensures
        (status == 200 && user is Some) ==> (r matches Ok(res) && res.id == user.unwrap().id
            && res.login@ == user.unwrap().login@),
        status == 200 && user is None ==> (r matches Err(e) && e matches
            GITrelloError::GitHubAPIClientError { message } && message@
            == "failed to read the user from the response body"@),
        status != 200 && error_message is Some ==> (r matches Err(e) && e matches
            GITrelloError::GitHubAPIClientError { message } && message@
            == error_message.unwrap()@),
        status != 200 && error_message is None ==> (r matches Err(e) && e matches
            GITrelloError::GitHubAPIClientError { message } && message@ == raw_body@),
{
    if status == 200 {
        match user {
            Some(u) => Ok(u),
            None => Err(
                GITrelloError::GitHubAPIClientError {
                    message: "failed to read the user from the response body".to_owned(),
                },
            ),
        }
    } else {
        match error_message {
            Some(message) => Err(GITrelloError::GitHubAPIClientError { message }),
            None => Err(GITrelloError::GitHubAPIClientError { message: raw_body.to_owned() }),
        }
    }
}

} // verus!
