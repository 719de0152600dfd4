//! The transaction ledgers: append-only chronological records of sales and
//! purchases. Each record carries an immutable snapshot of the product at
//! transaction time, so later catalog edits never change history.

use vstd::prelude::*;
use crate::product::{Product, ProductV};

verus! {

/// The mathematical value of a [`Sale`].
pub ghost struct SaleV {
    pub product: ProductV,
    pub quantity: u64,
    pub sale_price_cents: u64,
}

/// One recorded sale: a snapshot of the product, the quantity sold, and the
/// price applied to this transaction (independent of the catalog price).
pub struct Sale {
    pub product: Product,
    pub quantity: u64,
    pub sale_price_cents: u64,
}

impl View for Sale {
    type V = SaleV;

    open spec fn view(&self) -> SaleV {
        SaleV {
            product: self.product@,
            quantity: self.quantity,
            sale_price_cents: self.sale_price_cents,
        }
    }
}

/// The mathematical value of a [`Purchase`].
pub ghost struct PurchaseV {
    pub product: ProductV,
    pub quantity: u64,
    pub purchase_price_cents: u64,
}

/// One recorded purchase: a snapshot of the product, the quantity bought,
/// and the price paid per unit.
pub struct Purchase {
    pub product: Product,
    pub quantity: u64,
    pub purchase_price_cents: u64,
}

impl View for Purchase {
    type V = PurchaseV;

    open spec fn view(&self) -> PurchaseV {
        PurchaseV {
            product: self.product@,
            quantity: self.quantity,
            purchase_price_cents: self.purchase_price_cents,
        }
    }
}

/// The append-only record of sales, in chronological order.
pub struct SalesLedger {
    transactions: Vec<Sale>,
}

impl View for SalesLedger {
    type V = Seq<SaleV>;

    closed spec fn view(&self) -> Seq<SaleV> {
        Seq::new(self.transactions@.len(), |i: int| self.transactions@[i]@)
    }
}

impl SalesLedger {
    /// An empty ledger.
    pub fn new() -> (l: SalesLedger)
        ensures
            l@ == Seq::<SaleV>::empty(),
    {
        let l = SalesLedger { transactions: Vec::new() };
        proof {
            assert(l@ =~= Seq::<SaleV>::empty());
        }
        l
    }

    /// How many sales are recorded.
    pub fn len(&self) -> (n: usize)
        ensures
            n == self@.len(),
    {
        self.transactions.len()
    }

    /// Appends one sale at the end; nothing is ever changed or removed.
    pub fn record(&mut self, sale: Sale)
        ensures
            final(self)@ == old(self)@.push(sale@),
    {
        let ghost l0 = self@;
        let ghost sv = sale@;
        self.transactions.push(sale);
        proof {
            assert(self@ =~= l0.push(sv));
        }
    }

    /// The `i`-th recorded sale, oldest first.
    pub fn entry(&self, i: usize) -> (s: &Sale)
        requires
            i < self@.len(),
        ensures
            s@ == self@[i as int],
    {
        &self.transactions[i]
    }
}

/// The append-only record of purchases, in chronological order.
pub struct PurchaseLedger {
    transactions: Vec<Purchase>,
}

impl View for PurchaseLedger {
    type V = Seq<PurchaseV>;

    closed spec fn view(&self) -> Seq<PurchaseV> {
        Seq::new(self.transactions@.len(), |i: int| self.transactions@[i]@)
    }
}

impl PurchaseLedger {
    /// An empty ledger.
    pub fn new() -> (l: PurchaseLedger)
        ensures
            l@ == Seq::<PurchaseV>::empty(),
    {
        let l = PurchaseLedger { transactions: Vec::new() };
        proof {
            assert(l@ =~= Seq::<PurchaseV>::empty());
        }
        l
    }

    /// How many purchases are recorded.
    pub fn len(&self) -> (n: usize)
        ensures
            n == self@.len(),
    {
        self.transactions.len()
    }

    /// Appends one purchase at the end; nothing is ever changed or removed.
    pub fn record(&mut self, purchase: Purchase)
        ensures
            final(self)@ == old(self)@.push(purchase@),
    {
        let ghost l0 = self@;
        let ghost pv = purchase@;
        self.transactions.push(purchase);
        proof {
            assert(self@ =~= l0.push(pv));
        }
    }

    /// The `i`-th recorded purchase, oldest first.
    pub fn entry(&self, i: usize) -> (p: &Purchase)
        requires
            i < self@.len(),
        ensures
            p@ == self@[i as int],
    {
        &self.transactions[i]
    }
}

} // verus!
