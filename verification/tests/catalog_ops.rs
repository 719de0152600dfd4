use inventory_core::catalog::Catalog;
use inventory_core::errors::InventoryError;
use inventory_core::product::Product;

fn product(name: &str, description: &str, quantity: u64, price_cents: u64) -> Product {
    Product {
        name: name.to_string(),
        description: description.to_string(),
        quantity,
        price_cents,
    }
}

#[test]
fn add_then_lookup_returns_the_product() {
    let mut catalog = Catalog::new();
    catalog
        .add(product("Widget", "a widget", 10, 1999))
        .unwrap();
    let found = catalog.lookup(&"Widget".to_string()).unwrap();
    assert_eq!(found.name, "Widget");
    assert_eq!(found.description, "a widget");
    assert_eq!(found.quantity, 10);
    assert_eq!(found.price_cents, 1999);
}

#[test]
fn add_twice_fails_with_duplicate_key_and_size_is_unchanged() {
    let mut catalog = Catalog::new();
    catalog.add(product("Widget", "first", 10, 1999)).unwrap();
    assert_eq!(catalog.len(), 1);
    let second = catalog.add(product("Widget", "second", 3, 500));
    assert_eq!(second, Err(InventoryError::DuplicateKey));
    assert_eq!(catalog.len(), 1);
    let found = catalog.lookup(&"Widget".to_string()).unwrap();
    assert_eq!(found.description, "first");
}

#[test]
fn delete_absent_fails_with_not_found_and_changes_nothing() {
    let mut catalog = Catalog::new();
    catalog.add(product("Widget", "a widget", 10, 1999)).unwrap();
    let r = catalog.delete(&"Gadget".to_string());
    assert_eq!(r, Err(InventoryError::NotFound));
    assert_eq!(catalog.len(), 1);
    let found = catalog.lookup(&"Widget".to_string()).unwrap();
    assert_eq!(found.quantity, 10);
}

#[test]
fn delete_present_removes_and_confirms_with_the_name() {
    let mut catalog = Catalog::new();
    catalog.add(product("Widget", "a widget", 10, 1999)).unwrap();
    let r = catalog.delete(&"Widget".to_string());
    assert_eq!(r, Ok("Product 'Widget' removed successfully".to_string()));
    assert_eq!(catalog.len(), 0);
    assert!(catalog.lookup(&"Widget".to_string()).is_none());
}

#[test]
fn update_replaces_every_field() {
    let mut catalog = Catalog::new();
    catalog.add(product("Widget", "old", 10, 1999)).unwrap();
    catalog
        .update(product("Widget", "new", 42, 2500))
        .unwrap();
    assert_eq!(catalog.len(), 1);
    let found = catalog.lookup(&"Widget".to_string()).unwrap();
    assert_eq!(found.description, "new");
    assert_eq!(found.quantity, 42);
    assert_eq!(found.price_cents, 2500);
}

#[test]
fn update_absent_fails_with_not_found() {
    let mut catalog = Catalog::new();
    let r = catalog.update(product("Widget", "new", 42, 2500));
    assert_eq!(r, Err(InventoryError::NotFound));
    assert_eq!(catalog.len(), 0);
}

#[test]
fn contains_reports_presence() {
    let mut catalog = Catalog::new();
    assert!(!catalog.contains(&"Widget".to_string()));
    catalog.add(product("Widget", "a widget", 10, 1999)).unwrap();
    assert!(catalog.contains(&"Widget".to_string()));
    assert!(!catalog.contains(&"widget".to_string()));
}

#[test]
fn delete_in_the_middle_keeps_the_other_products_in_order() {
    let mut catalog = Catalog::new();
    catalog.add(product("Alpha", "first", 1, 100)).unwrap();
    catalog.add(product("Beta", "second", 2, 200)).unwrap();
    catalog.add(product("Gamma", "third", 3, 300)).unwrap();
    catalog.delete(&"Beta".to_string()).unwrap();
    assert_eq!(catalog.len(), 2);
    assert!(catalog.lookup(&"Beta".to_string()).is_none());
    assert_eq!(catalog.get(0).name, "Alpha");
    assert_eq!(catalog.get(1).name, "Gamma");
    assert_eq!(catalog.lookup(&"Gamma".to_string()).unwrap().quantity, 3);
}

#[test]
fn error_messages_name_the_cause() {
    assert_eq!(
        InventoryError::DuplicateKey.message(),
        "Product already exists in inventory"
    );
    assert_eq!(
        InventoryError::NotFound.message(),
        "Product not found in inventory"
    );
    assert_eq!(
        InventoryError::InsufficientStock.message(),
        "Insufficient quantity in stock"
    );
    assert_eq!(InventoryError::InvalidInput.message(), "Invalid number input");
}
