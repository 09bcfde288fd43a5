//! Board-to-repository link management with verified webhook reconciliation.
//!
//! The crate keeps board/repository links and their provider-side webhooks
//! consistent: a physical repository carries at most one managed webhook,
//! shared by every link that points at it, and that webhook is torn down
//! only when the last link referencing the repository goes away.

pub mod auth;
pub mod errors;
pub mod github_api;
pub mod gitrello_api;
pub mod ingestion;
pub mod models;
pub mod profiles;
pub mod reconciler;
pub mod request_data;
pub mod response_data;
pub mod state;
pub mod store;
pub mod user;
