//! A small todo service: an entity model with field validation, a storage
//! abstraction over backends, and a verified in-memory backend, together
//! with the handler logic that maps repository results to HTTP statuses.

pub mod handlers;
pub mod repositories;
