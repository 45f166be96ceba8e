//! Catalog search: scopes, stale results, result sections.

pub mod controller;
pub mod view;
