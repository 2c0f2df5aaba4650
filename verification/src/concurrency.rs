//! The concurrency lab: one domain rule ("never reserve more units than
//! exist") under four strategies, and the instrument that measures them.

pub mod actor;
pub mod naive;
pub mod optimistic;
pub mod pessimistic;
pub mod race;
pub mod stock;
