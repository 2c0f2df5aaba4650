//! Verified core of an architecture lab: stock reservation strategies under
//! concurrency, a choreographed order workflow, and backend-for-frontend views.

pub mod bff;
pub mod choreography;
pub mod concurrency;
pub mod table;
pub mod text;
