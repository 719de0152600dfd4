//! The product record: the data entity the catalog and the ledgers share.

use vstd::prelude::*;

verus! {

/// The mathematical value of a [`Product`]: its fields as plain
/// sequences and integers.
pub ghost struct ProductV {
    pub name: Seq<char>,
    pub description: Seq<char>,
    pub quantity: u64,
    pub price_cents: u64,
}

/// `p` with its quantity replaced by `q`; every other field is kept.
pub open spec fn with_quantity(p: ProductV, q: u64) -> ProductV {
    ProductV { name: p.name, description: p.description, quantity: q, price_cents: p.price_cents }
}

/// One product of the catalog. The name is the unique key; the unit price
/// is a non-negative decimal held exactly as whole cents.
pub struct Product {
    pub name: String,
    pub description: String,
    pub quantity: u64,
    pub price_cents: u64,
}

impl View for Product {
    type V = ProductV;

    open spec fn view(&self) -> ProductV {
        ProductV {
            name: self.name@,
            description: self.description@,
            quantity: self.quantity,
            price_cents: self.price_cents,
        }
    }
}

impl Clone for Product {
    /// An exact copy: ledger snapshots rely on this to capture a product's
    /// fields at transaction time.
    fn clone(&self) -> (r: Self)
        ensures
            r@ == self@,
    {
        Product {
            name: self.name.clone(),
            description: self.description.clone(),
            quantity: self.quantity,
            price_cents: self.price_cents,
        }
    }
}

} // verus!
