use inventory_core::catalog::Catalog;
use inventory_core::coordinator::{record_purchase, record_sale};
use inventory_core::errors::InventoryError;
use inventory_core::ledger::{PurchaseLedger, SalesLedger};
use inventory_core::product::Product;

fn product(name: &str, quantity: u64, price_cents: u64) -> Product {
    Product {
        name: name.to_string(),
        description: "desc".to_string(),
        quantity,
        price_cents,
    }
}

#[test]
fn sale_reduces_quantity_and_appends_one_record() {
    let mut catalog = Catalog::new();
    let mut sales = SalesLedger::new();
    catalog.add(product("Widget", 10, 1999)).unwrap();
    let r = record_sale(&mut catalog, &mut sales, &"Widget".to_string(), 3, 2500);
    assert_eq!(r, Ok("Sale recorded successfully for 'Widget'".to_string()));
    assert_eq!(sales.len(), 1);
    let found = catalog.lookup(&"Widget".to_string()).unwrap();
    assert_eq!(found.quantity, 7);
    let entry = sales.entry(0);
    assert_eq!(entry.quantity, 3);
    assert_eq!(entry.sale_price_cents, 2500);
    assert_eq!(entry.product.name, "Widget");
    assert_eq!(entry.product.price_cents, 1999);
}

#[test]
fn sale_beyond_stock_fails_and_changes_nothing() {
    let mut catalog = Catalog::new();
    let mut sales = SalesLedger::new();
    catalog.add(product("Widget", 2, 1999)).unwrap();
    let r = record_sale(&mut catalog, &mut sales, &"Widget".to_string(), 3, 2500);
    assert_eq!(r, Err(InventoryError::InsufficientStock));
    assert_eq!(sales.len(), 0);
    let found = catalog.lookup(&"Widget".to_string()).unwrap();
    assert_eq!(found.quantity, 2);
}

#[test]
fn sale_of_absent_product_fails_with_not_found() {
    let mut catalog = Catalog::new();
    let mut sales = SalesLedger::new();
    let r = record_sale(&mut catalog, &mut sales, &"Widget".to_string(), 1, 100);
    assert_eq!(r, Err(InventoryError::NotFound));
    assert_eq!(sales.len(), 0);
}

#[test]
fn sale_of_zero_quantity_is_invalid_input() {
    let mut catalog = Catalog::new();
    let mut sales = SalesLedger::new();
    catalog.add(product("Widget", 10, 1999)).unwrap();
    let r = record_sale(&mut catalog, &mut sales, &"Widget".to_string(), 0, 100);
    assert_eq!(r, Err(InventoryError::InvalidInput));
    assert_eq!(sales.len(), 0);
    assert_eq!(catalog.lookup(&"Widget".to_string()).unwrap().quantity, 10);
}

#[test]
fn purchase_increases_quantity_and_appends_one_record() {
    let mut catalog = Catalog::new();
    let mut purchases = PurchaseLedger::new();
    catalog.add(product("Widget", 10, 1999)).unwrap();
    let r = record_purchase(&mut catalog, &mut purchases, &"Widget".to_string(), 5, 1500);
    assert_eq!(
        r,
        Ok("Purchase recorded successfully for 'Widget'".to_string())
    );
    assert_eq!(purchases.len(), 1);
    let found = catalog.lookup(&"Widget".to_string()).unwrap();
    assert_eq!(found.quantity, 15);
    let entry = purchases.entry(0);
    assert_eq!(entry.quantity, 5);
    assert_eq!(entry.purchase_price_cents, 1500);
    assert_eq!(entry.product.name, "Widget");
}

#[test]
fn purchase_of_absent_product_fails_with_not_found() {
    let mut catalog = Catalog::new();
    let mut purchases = PurchaseLedger::new();
    let r = record_purchase(&mut catalog, &mut purchases, &"Widget".to_string(), 5, 1500);
    assert_eq!(r, Err(InventoryError::NotFound));
    assert_eq!(purchases.len(), 0);
}

#[test]
fn purchase_of_zero_quantity_is_invalid_input() {
    let mut catalog = Catalog::new();
    let mut purchases = PurchaseLedger::new();
    catalog.add(product("Widget", 10, 1999)).unwrap();
    let r = record_purchase(&mut catalog, &mut purchases, &"Widget".to_string(), 0, 1500);
    assert_eq!(r, Err(InventoryError::InvalidInput));
    assert_eq!(purchases.len(), 0);
    assert_eq!(catalog.lookup(&"Widget".to_string()).unwrap().quantity, 10);
}

#[test]
fn ledger_snapshots_survive_later_catalog_edits() {
    let mut catalog = Catalog::new();
    let mut sales = SalesLedger::new();
    catalog.add(product("Widget", 10, 1999)).unwrap();
    record_sale(&mut catalog, &mut sales, &"Widget".to_string(), 3, 2500).unwrap();
    catalog.delete(&"Widget".to_string()).unwrap();
    assert_eq!(catalog.len(), 0);
    assert_eq!(sales.len(), 1);
    assert_eq!(sales.entry(0).product.name, "Widget");
    assert_eq!(sales.entry(0).product.price_cents, 1999);
}
