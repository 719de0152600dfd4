//! The transaction coordinator: the one place where a catalog mutation and a
//! ledger append happen together. If any check fails, neither happens.
//!
//! Policy on zero inputs: a transaction quantity of zero is rejected with
//! `InvalidInput` before any state is touched; a zero price is allowed
//! (prices are non-negative).

use vstd::prelude::*;
use crate::catalog::{
    Catalog, contains_name, idx_of, lemma_first_match, lemma_idx_of, spec_lookup,
};
use crate::errors::InventoryError;
use crate::ledger::{Purchase, PurchaseLedger, PurchaseV, Sale, SaleV, SalesLedger};
use crate::product::{ProductV, with_quantity};

verus! {

/// Whether a sale of `qty` units of `name` succeeds against catalog `cat`:
/// the product exists, the quantity is positive and covered by stock.
pub open spec fn sale_ok(cat: Seq<ProductV>, name: Seq<char>, qty: u64) -> bool {
    contains_name(cat, name) && qty > 0 && qty <= cat[idx_of(cat, name)].quantity
}

/// The error a failing sale reports: an absent product first, then a zero
/// quantity, then insufficient stock.
pub open spec fn sale_error(cat: Seq<ProductV>, name: Seq<char>, qty: u64) -> InventoryError {
    if !contains_name(cat, name) {
        InventoryError::NotFound
    } else if qty == 0 {
        InventoryError::InvalidInput
    } else {
        InventoryError::InsufficientStock
    }
}

/// The catalog entry after a successful sale: its quantity reduced by
/// exactly `qty`, every other field kept. This is also the snapshot the
/// ledger records, taken just after the decrement.
pub open spec fn product_after_sale(cat: Seq<ProductV>, name: Seq<char>, qty: u64) -> ProductV {
    with_quantity(
        cat[idx_of(cat, name)],
        (cat[idx_of(cat, name)].quantity - qty) as u64,
    )
}

/// The whole catalog after a successful sale.
pub open spec fn cat_after_sale(cat: Seq<ProductV>, name: Seq<char>, qty: u64) -> Seq<ProductV> {
    cat.update(idx_of(cat, name), product_after_sale(cat, name, qty))
}

/// Whether a purchase of `qty` units of `name` succeeds against catalog
/// `cat`: the product exists and the quantity is positive. Purchases have
/// no upper bound.
pub open spec fn purchase_ok(cat: Seq<ProductV>, name: Seq<char>, qty: u64) -> bool {
    contains_name(cat, name) && qty > 0
}

/// The error a failing purchase reports.
pub open spec fn purchase_error(cat: Seq<ProductV>, name: Seq<char>) -> InventoryError {
    if !contains_name(cat, name) {
        InventoryError::NotFound
    } else {
        InventoryError::InvalidInput
    }
}

/// The catalog entry after a successful purchase: its quantity increased by
/// exactly `qty`. This is also the snapshot the ledger records.
pub open spec fn product_after_purchase(cat: Seq<ProductV>, name: Seq<char>, qty: u64) -> ProductV {
    with_quantity(
        cat[idx_of(cat, name)],
        (cat[idx_of(cat, name)].quantity + qty) as u64,
    )
}

/// The whole catalog after a successful purchase.
pub open spec fn cat_after_purchase(cat: Seq<ProductV>, name: Seq<char>, qty: u64) -> Seq<
    ProductV,
> {
    cat.update(idx_of(cat, name), product_after_purchase(cat, name, qty))
}

/// Law: a successful sale reduces the product's stored quantity by exactly
/// the quantity sold, and appends exactly one sale, so the ledger grows by
/// one entry. Looking the name up afterwards shows the reduced quantity.
pub proof fn lemma_sale_effect(
    cat: Seq<ProductV>,
    ledger: Seq<SaleV>,
    name: Seq<char>,
    qty: u64,
    price: u64,
)
    requires
        sale_ok(cat, name, qty),
    ensures
        spec_lookup(cat_after_sale(cat, name, qty), name) == Some(
            product_after_sale(cat, name, qty),
        ),
        product_after_sale(cat, name, qty).quantity == cat[idx_of(cat, name)].quantity - qty,
        ledger.push(
            (SaleV {
                product: product_after_sale(cat, name, qty),
                quantity: qty,
                sale_price_cents: price,
            }),
        ).len() == ledger.len() + 1,
{
    lemma_idx_of(cat, name);
    let i = idx_of(cat, name);
    let cat1 = cat_after_sale(cat, name, qty);
    assert(cat1[i].name == name);
    assert forall|j: int| 0 <= j < i implies cat1[j].name != name by {
        assert(cat1[j] == cat[j]);
    }
    lemma_first_match(cat1, name, i);
}

/// Law: a successful purchase increases the product's stored quantity by
/// exactly the quantity bought (within the machine limit of the quantity
/// field), and appends exactly one purchase, so the ledger grows by one.
pub proof fn lemma_purchase_effect(
    cat: Seq<ProductV>,
    ledger: Seq<PurchaseV>,
    name: Seq<char>,
    qty: u64,
    price: u64,
)
    requires
        purchase_ok(cat, name, qty),
        cat[idx_of(cat, name)].quantity + qty <= u64::MAX,
    ensures
        spec_lookup(cat_after_purchase(cat, name, qty), name) == Some(
            product_after_purchase(cat, name, qty),
        ),
        product_after_purchase(cat, name, qty).quantity == cat[idx_of(cat, name)].quantity + qty,
        ledger.push(
            (PurchaseV {
                product: product_after_purchase(cat, name, qty),
                quantity: qty,
                purchase_price_cents: price,
            }),
        ).len() == ledger.len() + 1,
{
    lemma_idx_of(cat, name);
    let i = idx_of(cat, name);
    let cat1 = cat_after_purchase(cat, name, qty);
    assert(cat1[i].name == name);
    assert forall|j: int| 0 <= j < i implies cat1[j].name != name by {
        assert(cat1[j] == cat[j]);
    }
    lemma_first_match(cat1, name, i);
}

/// The confirmation text of a successful sale.
pub open spec fn spec_sale_message(name: Seq<char>) -> Seq<char> {
    "Sale recorded successfully for '"@ + name + "'"@
}

/// The confirmation text of a successful purchase.
pub open spec fn spec_purchase_message(name: Seq<char>) -> Seq<char> {
    "Purchase recorded successfully for '"@ + name + "'"@
}

/// Records a sale: decrements the product's stock by `quantity` and appends
/// one snapshot to the sales ledger, or fails (`NotFound`, `InvalidInput`
/// on a zero quantity, `InsufficientStock`) leaving both untouched.
pub fn record_sale(
    catalog: &mut Catalog,
    sales: &mut SalesLedger,
    name: &String,
    quantity: u64,
    sale_price_cents: u64,
) -> (r: Result<String, InventoryError>)
    requires
        old(catalog).wf(),
    ensures
        final(catalog).wf(),
        match r {
            Ok(msg) => sale_ok(old(catalog)@, name@, quantity) && msg@ == spec_sale_message(name@),
            Err(e) => !sale_ok(old(catalog)@, name@, quantity) && e == sale_error(
                old(catalog)@,
                name@,
                quantity,
            ),
        },
        sale_ok(old(catalog)@, name@, quantity) ==> final(catalog)@ == cat_after_sale(
            old(catalog)@,
            name@,
            quantity,
        ) && final(sales)@ == old(sales)@.push(
            (SaleV {
                product: product_after_sale(old(catalog)@, name@, quantity),
                quantity: quantity,
                sale_price_cents: sale_price_cents,
            }),
        ),
        !sale_ok(old(catalog)@, name@, quantity) ==> final(catalog)@ == old(catalog)@
            && final(sales)@ == old(sales)@,
{
    let cur: u64 = match catalog.lookup(name) {
        Some(p) => p.quantity,
        None => {
            return Err(InventoryError::NotFound);
        },
    };
    if quantity == 0 {
        return Err(InventoryError::InvalidInput);
    }
    if quantity > cur {
        return Err(InventoryError::InsufficientStock);
    }
    let snap = match catalog.set_quantity(name, cur - quantity) {
        Ok(s) => s,
        Err(e) => {
            proof {
                assert(false);
            }
            return Err(e);
        },
    };
    sales.record(Sale { product: snap, quantity, sale_price_cents });
    let mut msg = String::from_str("Sale recorded successfully for '");
    msg.append(name.as_str());
    msg.append("'");
    proof {
        assert(msg@ =~= spec_sale_message(name@));
    }
    Ok(msg)
}

/// Records a purchase: increments the product's stock by `quantity` and
/// appends one snapshot to the purchase ledger, or fails (`NotFound`,
/// `InvalidInput` on a zero quantity) leaving both untouched. The new stock
/// level must fit the quantity field, a machine limit.
pub fn record_purchase(
    catalog: &mut Catalog,
    purchases: &mut PurchaseLedger,
    name: &String,
    quantity: u64,
    purchase_price_cents: u64,
) -> (r: Result<String, InventoryError>)
    requires
        old(catalog).wf(),
        contains_name(old(catalog)@, name@) ==> old(catalog)@[idx_of(
            old(catalog)@,
            name@,
        )].quantity + quantity <= u64::MAX,
    ensures
        final(catalog).wf(),
        match r {
            Ok(msg) => purchase_ok(old(catalog)@, name@, quantity) && msg@
                == spec_purchase_message(name@),
            Err(e) => !purchase_ok(old(catalog)@, name@, quantity) && e == purchase_error(
                old(catalog)@,
                name@,
            ),
        },
        purchase_ok(old(catalog)@, name@, quantity) ==> final(catalog)@ == cat_after_purchase(
            old(catalog)@,
            name@,
            quantity,
        ) && final(purchases)@ == old(purchases)@.push(
            (PurchaseV {
                product: product_after_purchase(old(catalog)@, name@, quantity),
                quantity: quantity,
                purchase_price_cents: purchase_price_cents,
            }),
        ),
        !purchase_ok(old(catalog)@, name@, quantity) ==> final(catalog)@ == old(catalog)@
            && final(purchases)@ == old(purchases)@,
{
    let cur: u64 = match catalog.lookup(name) {
        Some(p) => p.quantity,
        None => {
            return Err(InventoryError::NotFound);
        },
    };
    if quantity == 0 {
        return Err(InventoryError::InvalidInput);
    }
    let snap = match catalog.set_quantity(name, cur + quantity) {
        Ok(s) => s,
        Err(e) => {
            proof {
                assert(false);
            }
            return Err(e);
        },
    };
    purchases.record(Purchase { product: snap, quantity, purchase_price_cents });
    let mut msg = String::from_str("Purchase recorded successfully for '");
    msg.append(name.as_str());
    msg.append("'");
    proof {
        assert(msg@ =~= spec_purchase_message(name@));
    }
    Ok(msg)
}

} // verus!
