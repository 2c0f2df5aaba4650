//! The choreographed order workflow: no service drives it. Inventory,
//! payments, notifications and the orders tracker each react to facts the
//! others publish, and each keeps the state it needs to react safely to
//! redelivered and reordered facts.

pub mod catalog;
pub mod inventory;
pub mod notifications;
pub mod orders;
pub mod payments;
