//! Plain-text reports over the catalog and the two ledgers: one line per
//! record, in iteration order. Reporting has no failure mode; an empty
//! collection yields empty text.

use vstd::prelude::*;
use crate::catalog::Catalog;
use crate::ledger::{PurchaseLedger, PurchaseV, Sale, SaleV, SalesLedger, Purchase};
use crate::money::{format_cents, format_u64, spec_cents, spec_decimal};
use crate::product::{Product, ProductV};

verus! {

/// One inventory report line: name, description, unit price to two
/// decimals, and the quantity in stock.
pub open spec fn spec_inventory_line(p: ProductV) -> Seq<char> {
    p.name + "\t"@ + p.description + " - [$"@ + spec_cents(p.price_cents as nat) + "\t"@
        + spec_decimal(p.quantity as nat) + "] in Stock\n"@
}

/// One sales report line: quantity, name, unit sale price, and the total
/// `sale_price * quantity`, both amounts to two decimals.
pub open spec fn spec_sales_line(s: SaleV) -> Seq<char> {
    "Sold "@ + spec_decimal(s.quantity as nat) + " * "@ + s.product.name + " for $"@ + spec_cents(
        s.sale_price_cents as nat,
    ) + " each [Total - $"@ + spec_cents((s.sale_price_cents * s.quantity) as nat) + "]\n"@
}

/// One purchase report line, symmetric to the sales line.
pub open spec fn spec_purchase_line(p: PurchaseV) -> Seq<char> {
    "Purchased "@ + spec_decimal(p.quantity as nat) + " * "@ + p.product.name + " for $"@
        + spec_cents(p.purchase_price_cents as nat) + " each [Total - $"@ + spec_cents(
        (p.purchase_price_cents * p.quantity) as nat,
    ) + "]\n"@
}

/// The inventory report: the lines of all catalog entries, in order.
pub open spec fn spec_inventory_report(cat: Seq<ProductV>) -> Seq<char>
    decreases cat.len(),
{
    if cat.len() == 0 {
        Seq::empty()
    } else {
        spec_inventory_line(cat[0]) + spec_inventory_report(cat.drop_first())
    }
}

/// The sales report: the lines of all recorded sales, oldest first.
pub open spec fn spec_sales_report(ledger: Seq<SaleV>) -> Seq<char>
    decreases ledger.len(),
{
    if ledger.len() == 0 {
        Seq::empty()
    } else {
        spec_sales_line(ledger[0]) + spec_sales_report(ledger.drop_first())
    }
}

/// The purchase report: the lines of all recorded purchases, oldest first.
pub open spec fn spec_purchase_report(ledger: Seq<PurchaseV>) -> Seq<char>
    decreases ledger.len(),
{
    if ledger.len() == 0 {
        Seq::empty()
    } else {
        spec_purchase_line(ledger[0]) + spec_purchase_report(ledger.drop_first())
    }
}

proof fn lemma_inventory_report_push(cat: Seq<ProductV>, p: ProductV)
    ensures
        spec_inventory_report(cat.push(p)) == spec_inventory_report(cat) + spec_inventory_line(p),
    decreases cat.len(),
{
    if cat.len() == 0 {
        assert(cat.push(p)[0] == p);
        assert(cat.push(p).drop_first() =~= Seq::<ProductV>::empty());
        assert(spec_inventory_report(cat.push(p)) == spec_inventory_line(p)
            + spec_inventory_report(Seq::<ProductV>::empty()));
        assert(spec_inventory_report(Seq::<ProductV>::empty()) == Seq::<char>::empty());
        assert(cat =~= Seq::<ProductV>::empty());
        assert(spec_inventory_report(cat.push(p)) =~= spec_inventory_report(cat)
            + spec_inventory_line(p));
    } else {
        assert(cat.push(p).drop_first() =~= cat.drop_first().push(p));
        lemma_inventory_report_push(cat.drop_first(), p);
        assert(cat.push(p)[0] == cat[0]);
        assert(spec_inventory_report(cat.push(p)) == spec_inventory_line(cat[0]) + (
        spec_inventory_report(cat.drop_first()) + spec_inventory_line(p)));
        assert(spec_inventory_report(cat) == spec_inventory_line(cat[0]) + spec_inventory_report(
            cat.drop_first(),
        ));
        assert(spec_inventory_report(cat.push(p)) =~= spec_inventory_report(cat)
            + spec_inventory_line(p));
    }
}

proof fn lemma_sales_report_push(ledger: Seq<SaleV>, s: SaleV)
    ensures
        spec_sales_report(ledger.push(s)) == spec_sales_report(ledger) + spec_sales_line(s),
    decreases ledger.len(),
{
    if ledger.len() == 0 {
        assert(ledger.push(s)[0] == s);
        assert(ledger.push(s).drop_first() =~= Seq::<SaleV>::empty());
        assert(spec_sales_report(ledger.push(s)) == spec_sales_line(s) + spec_sales_report(
            Seq::<SaleV>::empty(),
        ));
        assert(spec_sales_report(Seq::<SaleV>::empty()) == Seq::<char>::empty());
        assert(ledger =~= Seq::<SaleV>::empty());
        assert(spec_sales_report(ledger.push(s)) =~= spec_sales_report(ledger) + spec_sales_line(
            s,
        ));
    } else {
        assert(ledger.push(s).drop_first() =~= ledger.drop_first().push(s));
        lemma_sales_report_push(ledger.drop_first(), s);
        assert(ledger.push(s)[0] == ledger[0]);
        assert(spec_sales_report(ledger.push(s)) == spec_sales_line(ledger[0]) + (spec_sales_report(
            ledger.drop_first(),
        ) + spec_sales_line(s)));
        assert(spec_sales_report(ledger) == spec_sales_line(ledger[0]) + spec_sales_report(
            ledger.drop_first(),
        ));
        assert(spec_sales_report(ledger.push(s)) =~= spec_sales_report(ledger) + spec_sales_line(
            s,
        ));
    }
}

proof fn lemma_purchase_report_push(ledger: Seq<PurchaseV>, p: PurchaseV)
    ensures
        spec_purchase_report(ledger.push(p)) == spec_purchase_report(ledger) + spec_purchase_line(
            p,
        ),
    decreases ledger.len(),
{
    if ledger.len() == 0 {
        assert(ledger.push(p)[0] == p);
        assert(ledger.push(p).drop_first() =~= Seq::<PurchaseV>::empty());
        assert(spec_purchase_report(ledger.push(p)) == spec_purchase_line(p) + spec_purchase_report(
            Seq::<PurchaseV>::empty(),
        ));
        assert(spec_purchase_report(Seq::<PurchaseV>::empty()) == Seq::<char>::empty());
        assert(ledger =~= Seq::<PurchaseV>::empty());
        assert(spec_purchase_report(ledger.push(p)) =~= spec_purchase_report(ledger)
            + spec_purchase_line(p));
    } else {
        assert(ledger.push(p).drop_first() =~= ledger.drop_first().push(p));
        lemma_purchase_report_push(ledger.drop_first(), p);
        assert(ledger.push(p)[0] == ledger[0]);
        assert(spec_purchase_report(ledger.push(p)) == spec_purchase_line(ledger[0]) + (
        spec_purchase_report(ledger.drop_first()) + spec_purchase_line(p)));
        assert(spec_purchase_report(ledger) == spec_purchase_line(ledger[0])
            + spec_purchase_report(ledger.drop_first()));
        assert(spec_purchase_report(ledger.push(p)) =~= spec_purchase_report(ledger)
            + spec_purchase_line(p));
    }
}

/// The product of two 64-bit counts always fits the 128-bit total.
proof fn lemma_mul_u64_fits_u128(a: u64, b: u64)
    ensures
        (a as int) * (b as int) <= u128::MAX as int,
        (a as int) * (b as int) >= 0,
{
    assert((a as int) * (b as int) <= (u64::MAX as int) * (u64::MAX as int) && (a as int) * (
    b as int) >= 0) by (nonlinear_arith)
        requires
            0 <= a as int <= u64::MAX as int,
            0 <= b as int <= u64::MAX as int,
    ;
    assert((u64::MAX as int) * (u64::MAX as int) <= u128::MAX as int);
}

/// Renders one inventory line, matching `spec_inventory_line`.
pub fn inventory_line(p: &Product) -> (s: String)
    ensures
        s@ == spec_inventory_line(p@),
{
    let mut s = p.name.clone();
    s.append("\t");
    s.append(p.description.as_str());
    s.append(" - [$");
    let price = format_cents(p.price_cents as u128);
    s.append(price.as_str());
    s.append("\t");
    let qty = format_u64(p.quantity);
    s.append(qty.as_str());
    s.append("] in Stock\n");
    proof {
        assert(s@ =~= spec_inventory_line(p@));
    }
    s
}

/// Renders one sales line, matching `spec_sales_line`. The total is exact:
/// the product of two cent counts always fits the wider integer.
pub fn sales_line(s: &Sale) -> (line: String)
    ensures
        line@ == spec_sales_line(s@),
{
    proof {
        lemma_mul_u64_fits_u128(s.sale_price_cents, s.quantity);
    }
    let total: u128 = (s.sale_price_cents as u128) * (s.quantity as u128);
    let mut line = String::from_str("Sold ");
    let qty = format_u64(s.quantity);
    line.append(qty.as_str());
    line.append(" * ");
    line.append(s.product.name.as_str());
    line.append(" for $");
    let price = format_cents(s.sale_price_cents as u128);
    line.append(price.as_str());
    line.append(" each [Total - $");
    let total_text = format_cents(total);
    line.append(total_text.as_str());
    line.append("]\n");
    proof {
        assert(line@ =~= spec_sales_line(s@));
    }
    line
}

/// Renders one purchase line, matching `spec_purchase_line`.
pub fn purchase_line(p: &Purchase) -> (line: String)
    ensures
        line@ == spec_purchase_line(p@),
{
    proof {
        lemma_mul_u64_fits_u128(p.purchase_price_cents, p.quantity);
    }
    let total: u128 = (p.purchase_price_cents as u128) * (p.quantity as u128);
    let mut line = String::from_str("Purchased ");
    let qty = format_u64(p.quantity);
    line.append(qty.as_str());
    line.append(" * ");
    line.append(p.product.name.as_str());
    line.append(" for $");
    let price = format_cents(p.purchase_price_cents as u128);
    line.append(price.as_str());
    line.append(" each [Total - $");
    let total_text = format_cents(total);
    line.append(total_text.as_str());
    line.append("]\n");
    proof {
        assert(line@ =~= spec_purchase_line(p@));
    }
    line
}

/// The inventory report: one line per product, in catalog order. Always
/// succeeds; an empty catalog gives empty text.
pub fn generate_inventory_report(catalog: &Catalog) -> (report: String)
    ensures
        report@ == spec_inventory_report(catalog@),
{
    let mut report = String::new();
    let n = catalog.len();
    let mut k: usize = 0;
    while k < n
        invariant
            k <= n,
            n == catalog@.len(),
            report@ == spec_inventory_report(catalog@.take(k as int)),
        decreases n - k,
    {
        let line = inventory_line(catalog.get(k));
        report.append(line.as_str());
        proof {
            assert(catalog@.take(k as int).push(catalog@[k as int]) =~= catalog@.take(
                k as int + 1,
            ));
            lemma_inventory_report_push(catalog@.take(k as int), catalog@[k as int]);
        }
        k = k + 1;
    }
    proof {
        assert(catalog@.take(n as int) =~= catalog@);
    }
    report
}

/// The sales report: one line per recorded sale, oldest first. Always
/// succeeds; an empty ledger gives empty text.
pub fn generate_sales_report(sales: &SalesLedger) -> (report: String)
    ensures
        report@ == spec_sales_report(sales@),
{
    let mut report = String::new();
    let n = sales.len();
    let mut k: usize = 0;
    while k < n
        invariant
            k <= n,
            n == sales@.len(),
            report@ == spec_sales_report(sales@.take(k as int)),
        decreases n - k,
    {
        let line = sales_line(sales.entry(k));
        report.append(line.as_str());
        proof {
            assert(sales@.take(k as int).push(sales@[k as int]) =~= sales@.take(k as int + 1));
            lemma_sales_report_push(sales@.take(k as int), sales@[k as int]);
        }
        k = k + 1;
    }
    proof {
        assert(sales@.take(n as int) =~= sales@);
    }
    report
}

/// The purchase report: one line per recorded purchase, oldest first.
/// Always succeeds; an empty ledger gives empty text.
pub fn generate_purchase_report(purchases: &PurchaseLedger) -> (report: String)
    ensures
        report@ == spec_purchase_report(purchases@),
{
    let mut report = String::new();
    let n = purchases.len();
    let mut k: usize = 0;
    while k < n
        invariant
            k <= n,
            n == purchases@.len(),
            report@ == spec_purchase_report(purchases@.take(k as int)),
        decreases n - k,
    {
        let line = purchase_line(purchases.entry(k));
        report.append(line.as_str());
        proof {
            assert(purchases@.take(k as int).push(purchases@[k as int]) =~= purchases@.take(
                k as int + 1,
            ));
            lemma_purchase_report_push(purchases@.take(k as int), purchases@[k as int]);
        }
        k = k + 1;
    }
    proof {
        assert(purchases@.take(n as int) =~= purchases@);
    }
    report
}

} // verus!
