//! The error taxonomy of the inventory operations.
//!
//! Every error is recoverable at the command level: the caller reports the
//! message and goes on. No operation mutates any state on a failure path.

use vstd::prelude::*;

verus! {

/// Why an inventory operation was refused.
#[derive(Clone, Copy, PartialEq, Eq, Structural, Debug)]
pub enum InventoryError {
    /// `add` on a name that is already in the catalog.
    DuplicateKey,
    /// `update`, `delete`, `record_sale` or `record_purchase` on an absent name.
    NotFound,
    /// A sale whose quantity exceeds the on-hand quantity.
    InsufficientStock,
    /// A malformed quantity: this library rejects a zero transaction quantity.
    InvalidInput,
}

impl InventoryError {
    /// The display text of this error.
    pub open spec fn spec_message(&self) -> Seq<char> {
        match self {
            InventoryError::DuplicateKey => "Product already exists in inventory"@,
            InventoryError::NotFound => "Product not found in inventory"@,
            InventoryError::InsufficientStock => "Insufficient quantity in stock"@,
            InventoryError::InvalidInput => "Invalid number input"@,
        }
    }

    /// A human-readable message for this error.
    pub fn message(&self) -> (s: String)
        ensures
            s@ == self.spec_message(),
    {
        match self {
            InventoryError::DuplicateKey => String::from_str("Product already exists in inventory"),
            InventoryError::NotFound => String::from_str("Product not found in inventory"),
            InventoryError::InsufficientStock => String::from_str("Insufficient quantity in stock"),
            InventoryError::InvalidInput => String::from_str("Invalid number input"),
        }
    }
}

} // verus!
