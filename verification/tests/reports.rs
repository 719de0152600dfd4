use inventory_core::catalog::Catalog;
use inventory_core::coordinator::{record_purchase, record_sale};
use inventory_core::errors::InventoryError;
use inventory_core::ledger::{PurchaseLedger, SalesLedger};
use inventory_core::money::{format_cents, format_u64};
use inventory_core::product::Product;
use inventory_core::report::{
    generate_inventory_report, generate_purchase_report, generate_sales_report,
};

fn product(name: &str, description: &str, quantity: u64, price_cents: u64) -> Product {
    Product {
        name: name.to_string(),
        description: description.to_string(),
        quantity,
        price_cents,
    }
}

#[test]
fn cents_are_rendered_with_exactly_two_decimals() {
    assert_eq!(format_cents(0), "0.00");
    assert_eq!(format_cents(5), "0.05");
    assert_eq!(format_cents(50), "0.50");
    assert_eq!(format_cents(100), "1.00");
    assert_eq!(format_cents(1999), "19.99");
    assert_eq!(format_cents(2500), "25.00");
    assert_eq!(format_cents(7500), "75.00");
    assert_eq!(format_cents(123456789), "1234567.89");
}

#[test]
fn plain_counts_are_rendered_in_decimal() {
    assert_eq!(format_u64(0), "0");
    assert_eq!(format_u64(7), "7");
    assert_eq!(format_u64(10), "10");
    assert_eq!(format_u64(987654321), "987654321");
    assert_eq!(format_u64(u64::MAX), "18446744073709551615");
}

#[test]
fn empty_collections_give_empty_reports() {
    let catalog = Catalog::new();
    let sales = SalesLedger::new();
    let purchases = PurchaseLedger::new();
    assert_eq!(generate_inventory_report(&catalog), "");
    assert_eq!(generate_sales_report(&sales), "");
    assert_eq!(generate_purchase_report(&purchases), "");
}

#[test]
fn sales_report_total_is_price_times_quantity_to_two_decimals() {
    let mut catalog = Catalog::new();
    let mut sales = SalesLedger::new();
    catalog.add(product("Widget", "desc", 10, 1999)).unwrap();
    catalog.add(product("Gadget", "desc", 10, 2999)).unwrap();
    record_sale(&mut catalog, &mut sales, &"Widget".to_string(), 3, 2500).unwrap();
    record_sale(&mut catalog, &mut sales, &"Gadget".to_string(), 2, 1050).unwrap();
    let report = generate_sales_report(&sales);
    assert_eq!(
        report,
        "Sold 3 * Widget for $25.00 each [Total - $75.00]\n\
         Sold 2 * Gadget for $10.50 each [Total - $21.00]\n"
    );
}

#[test]
fn purchase_report_total_is_price_times_quantity_to_two_decimals() {
    let mut catalog = Catalog::new();
    let mut purchases = PurchaseLedger::new();
    catalog.add(product("Widget", "desc", 1, 1999)).unwrap();
    record_purchase(&mut catalog, &mut purchases, &"Widget".to_string(), 4, 1275).unwrap();
    let report = generate_purchase_report(&purchases);
    assert_eq!(report, "Purchased 4 * Widget for $12.75 each [Total - $51.00]\n");
}

#[test]
fn sale_scenario_updates_inventory_and_sales_reports() {
    let mut catalog = Catalog::new();
    let mut sales = SalesLedger::new();
    catalog.add(product("Widget", "desc", 10, 1999)).unwrap();
    let r = record_sale(&mut catalog, &mut sales, &"Widget".to_string(), 3, 2500);
    assert!(r.is_ok());
    assert_eq!(
        generate_inventory_report(&catalog),
        "Widget\tdesc - [$19.99\t7] in Stock\n"
    );
    assert_eq!(
        generate_sales_report(&sales),
        "Sold 3 * Widget for $25.00 each [Total - $75.00]\n"
    );
}

#[test]
fn sale_scenario_with_empty_stock_fails_and_leaves_no_trace() {
    let mut catalog = Catalog::new();
    let mut sales = SalesLedger::new();
    catalog.add(product("Gadget", "desc", 0, 2999)).unwrap();
    let r = record_sale(&mut catalog, &mut sales, &"Gadget".to_string(), 1, 1000);
    assert_eq!(r, Err(InventoryError::InsufficientStock));
    assert_eq!(catalog.lookup(&"Gadget".to_string()).unwrap().quantity, 0);
    assert_eq!(sales.len(), 0);
    assert_eq!(generate_sales_report(&sales), "");
}

#[test]
fn inventory_report_lists_products_in_insertion_order() {
    let mut catalog = Catalog::new();
    catalog.add(product("Widget", "small", 10, 1999)).unwrap();
    catalog.add(product("Gadget", "large", 0, 5)).unwrap();
    let report = generate_inventory_report(&catalog);
    assert_eq!(
        report,
        "Widget\tsmall - [$19.99\t10] in Stock\n\
         Gadget\tlarge - [$0.05\t0] in Stock\n"
    );
}
