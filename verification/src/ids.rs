//! Typed identifiers for the entities the unit-of-work core manages.

use vstd::prelude::*;

verus! {

/// Identifier of a customer.
#[derive(Clone, Copy, PartialEq, Eq, Structural, Debug, Hash)]
pub struct CustomerId(pub u64);

/// Identifier of an order.
#[derive(Clone, Copy, PartialEq, Eq, Structural, Debug, Hash)]
pub struct OrderId(pub u64);

/// Identifier of a product.
#[derive(Clone, Copy, PartialEq, Eq, Structural, Debug, Hash)]
pub struct ProductId(pub u64);

/// Identifier of a line item within an order.
#[derive(Clone, Copy, PartialEq, Eq, Structural, Debug, Hash)]
pub struct LineItemId(pub u64);

} // verus!
