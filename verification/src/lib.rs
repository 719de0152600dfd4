//! An in-memory inventory manager: a catalog of products keyed by name,
//! append-only sales and purchase ledgers, coordinated transactions that
//! keep stock quantities and ledgers consistent, and plain-text reports.
//!
//! Monetary amounts are non-negative decimals with two fractional digits,
//! held exactly as whole cents in unsigned integers.

pub mod catalog;
pub mod coordinator;
pub mod errors;
pub mod ledger;
pub mod money;
pub mod product;
pub mod report;
