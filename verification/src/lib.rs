//! Core of a location-sharing social backend: a registry of identities,
//! a bearer-token authentication gate, an idempotent friendship state
//! machine keyed on the unordered pair of usernames, and a windowed
//! proximity query over the stored identities.
use vstd::prelude::*;

pub mod errors;
pub mod store;
pub mod api;
pub mod auth;
pub mod models;

verus! {

} // verus!
