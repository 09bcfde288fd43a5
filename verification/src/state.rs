//! Explicit service configuration, passed in by the embedding program.

use vstd::prelude::*;

verus! {

/// The deployment flavour the service runs under.
#[derive(Clone, PartialEq)]
pub enum Environment {
    Dev,
    Test,
    Prod,
}

/// Configuration handed to the library by the embedding program: the token
/// secret, the project-management service location and credential, and the
/// callback URL registered on created webhooks.
pub struct State {
    pub environment: Environment,
    pub secret: String,
    pub gitrello_url: String,
    pub gitrello_access_token: String,
    pub webhook_url: String,
}

} // verus!
