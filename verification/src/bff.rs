//! Backends-for-frontends: the users and orders backends, and the two
//! gateways that reshape them for a web screen and a mobile screen.

pub mod mobile;
pub mod orders;
pub mod replies;
pub mod users;
pub mod web;
