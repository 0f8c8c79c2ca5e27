//! Verified validation, normalization and decision rules of the fediverse.kr
//! directory, catalog, community and membership services.
use vstd::prelude::*;

pub mod activation;
pub mod text;
pub mod auth;
pub mod catalog_editing;
pub mod catalog_logos;
pub mod catalog_moderation;
pub mod community;
pub mod crawler;
pub mod directory;
pub mod legacy;
pub mod members;
pub mod moderation;
pub mod profile_refresh;
pub mod store;

verus! {
} // verus!
