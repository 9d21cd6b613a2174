//! Core of a small lunch-ordering tool: restaurants are ranked by how long
//! ago they were last visited, bucketed into five recommendation tiers, and
//! user accounts are registered atomically together with their credential.

pub mod account;
pub mod errors;
pub mod model;
pub mod store;
pub mod tiering;

pub use errors::LunchOrderError;
pub use model::{Credential, Restaurant, User};
pub use store::Store;
