//! A commit-versioned store of domain state.
//!
//! Every fact is kept as a sequence of immutable versions, each valid over a
//! closed-open interval of commit numbers.  A version is never changed: it
//! is closed when the next one starts, and only a rollback after a fork of
//! the ledger removes or reopens it.
//!
//! - `ledger` holds the chain of commits and detects forks;
//! - `table` holds versioned rows and the reads that a commit bounds;
//! - `entity` writes an entity and the rows it owns together or not at all;
//! - `pike`, `location`, `product` and `schema` are the stores of the domain;
//! - `tree` shows that property trees are read back as they were stored;
//! - `database` applies batches from the ledger and rolls them back;
//! - `routes`, `tenant` and `protocol` answer requests from outside;
//! - `laws` states what holds of every store, whatever it holds.
//!
//! Every contract is stated over the mathematical views of the values, and
//! proved against them.

pub mod database;
pub mod entity;
pub mod error;
pub mod laws;
pub mod ledger;
pub mod location;
pub mod payload;
pub mod pike;
pub mod product;
pub mod property;
pub mod protocol;
pub mod routes;
pub mod schema;
pub mod table;
pub mod tenant;
pub mod tree;
