//! Catalog's public contract: the facts it announces about products.
//! Consumers keep their own narrower copies of these shapes.

use vstd::prelude::*;

verus! {

/// A product was created.
#[derive(Debug)]
pub struct ProductCreated {
    pub id: u128,
    pub name: String,
    pub price_cents: u64,
}

impl ProductCreated {
    pub const SUBJECT: &'static str = "catalog.product_created";
}

/// A product's price changed.
#[derive(Debug, Clone, Copy)]
pub struct ProductPriceChanged {
    pub id: u128,
    pub price_cents: u64,
}

impl ProductPriceChanged {
    pub const SUBJECT: &'static str = "catalog.product_price_changed";
}

} // verus!
