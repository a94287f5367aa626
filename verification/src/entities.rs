//! The entities the in-memory store holds: customers, products, and orders
//! with their line items.

use vstd::prelude::*;

use crate::error::Error;
use crate::ids::{CustomerId, LineItemId, OrderId, ProductId};

verus! {

/// A customer.
#[derive(Clone, Copy, PartialEq, Eq, Structural, Debug)]
pub struct Customer {
    pub id: CustomerId,
}

impl Customer {
    /// Create a customer with the given id.
    pub fn new(id: CustomerId) -> (r: Result<Customer, Error>)
        ensures
            r == Result::<Customer, Error>::Ok(Customer { id }),
    {
        Ok(Customer { id })
    }
}

/// A product.
#[derive(Clone, Copy, PartialEq, Eq, Structural, Debug)]
pub struct Product {
    pub id: ProductId,
}

impl Product {
    /// Create a product with the given id.
    pub fn new(id: ProductId) -> (r: Result<Product, Error>)
        ensures
            r == Result::<Product, Error>::Ok(Product { id }),
    {
        Ok(Product { id })
    }
}

/// One product entry within an order.
#[derive(Clone, Copy, PartialEq, Eq, Structural, Debug)]
pub struct LineItem {
    pub id: LineItemId,
    pub product_id: ProductId,
    pub quantity: u32,
}

impl LineItem {
    /// Replace the quantity of this line item.
    pub fn set_quantity(&mut self, quantity: u32) -> (r: Result<(), Error>)
        ensures
            r is Ok,
            *final(self) == (LineItem { quantity, ..*old(self) }),
    {
        self.quantity = quantity;
        Ok(())
    }
}

/// An order placed by a customer, holding its line items.
#[derive(Clone, Debug)]
pub struct Order {
    pub id: OrderId,
    pub customer_id: CustomerId,
    pub line_items: Vec<LineItem>,
}

/// Whether `items` holds a line item for `product_id`.
pub open spec fn has_product(items: Seq<LineItem>, product_id: ProductId) -> bool {
    exists|i: int| 0 <= i < items.len() && items[i].product_id == product_id
}

/// Whether `items` holds a line item with id `id`.
pub open spec fn has_line_item(items: Seq<LineItem>, id: LineItemId) -> bool {
    exists|i: int| 0 <= i < items.len() && items[i].id == id
}

/// Whether two orders hold the same data.
pub open spec fn order_eq(a: Order, b: Order) -> bool {
    a.id == b.id && a.customer_id == b.customer_id && a.line_items@ == b.line_items@
}

impl Order {
    /// Create an empty order for the given customer.
    pub fn new(id: OrderId, customer: &Customer) -> (r: Result<Order, Error>)
        ensures
            r is Ok,
            r->Ok_0.id == id,
            r->Ok_0.customer_id == customer.id,
            r->Ok_0.line_items@ =~= Seq::<LineItem>::empty(),
    {
        Ok(Order { id, customer_id: customer.id, line_items: Vec::new() })
    }

    /// An element-wise copy of this order.
    pub fn duplicate(&self) -> (r: Order)
        ensures
            order_eq(r, *self),
    {
        let mut items: Vec<LineItem> = Vec::new();
        let mut i: usize = 0;
        while i < self.line_items.len()
            invariant
                i <= self.line_items.len(),
                items@ == self.line_items@.take(i as int),
            decreases self.line_items.len() - i,
        {
            items.push(self.line_items[i]);
            proof {
                assert(items@ =~= self.line_items@.take(i + 1 as int));
            }
            i = i + 1;
        }
        proof {
            assert(items@ =~= self.line_items@);
        }
        Order { id: self.id, customer_id: self.customer_id, line_items: items }
    }

    /// The position of the line item for `product_id`, if the order has one.
    pub fn find_product(&self, product_id: ProductId) -> (r: Option<usize>)
        ensures
            match r {
                Some(i) => i < self.line_items@.len() && self.line_items@[i as int].product_id
                    == product_id,
                None => !has_product(self.line_items@, product_id),
            },
    {
        let mut i: usize = 0;
        while i < self.line_items.len()
            invariant
                i <= self.line_items.len(),
                forall|j: int| 0 <= j < i ==> self.line_items@[j].product_id != product_id,
            decreases self.line_items.len() - i,
        {
            if self.line_items[i].product_id == product_id {
                return Some(i);
            }
            i = i + 1;
        }
        None
    }

    /// The position of the line item with `id`, if the order has one.
    pub fn find_line_item(&self, id: LineItemId) -> (r: Option<usize>)
        ensures
            match r {
                Some(i) => i < self.line_items@.len() && self.line_items@[i as int].id == id,
                None => !has_line_item(self.line_items@, id),
            },
    {
        let mut i: usize = 0;
        while i < self.line_items.len()
            invariant
                i <= self.line_items.len(),
                forall|j: int| 0 <= j < i ==> self.line_items@[j].id != id,
            decreases self.line_items.len() - i,
        {
            if self.line_items[i].id == id {
                return Some(i);
            }
            i = i + 1;
        }
        None
    }

    /// Add a line item for `product` with the given quantity. Fails when the
    /// order already has a line item for that product.
    pub fn add_product(&mut self, id: LineItemId, product: &Product, quantity: u32) -> (r: Result<
        (),
        Error,
    >)
        ensures
            has_product(old(self).line_items@, product.id) ==> {
                &&& r == Result::<(), Error>::Err(Error::AlreadyExists)
                &&& order_eq(*final(self), *old(self))
            },
            !has_product(old(self).line_items@, product.id) ==> {
                &&& r is Ok
                &&& final(self).id == old(self).id
                &&& final(self).customer_id == old(self).customer_id
                &&& final(self).line_items@ == old(self).line_items@.push(
                    LineItem { id, product_id: product.id, quantity },
                )
            },
    {
        match self.find_product(product.id) {
            Some(_) => Err(Error::AlreadyExists),
            None => {
                self.line_items.push(LineItem { id, product_id: product.id, quantity });
                Ok(())
            }
        }
    }
}

} // verus!
