//! The errors of the entity stores: what went wrong, with the entity and the
//! key that the operation was about.

use vstd::prelude::*;
use crate::entity::Fault;
use crate::payload::Payload;

verus! {

/// The kinds of entity that the store keeps.
#[derive(Clone, Copy, Debug, PartialEq, Eq, Structural)]
pub enum EntityKind {
    Agent,
    Organization,
    Location,
    Product,
    Schema,
}

/// An operation of an entity store that failed.
#[derive(Clone, Debug, PartialEq, Eq)]
pub struct StoreError {
    /// What went wrong.
    pub fault: Fault,
    /// The kind of entity that the operation was about.
    pub entity: EntityKind,
    /// The natural key of that entity.
    pub key: String,
}

/// The view of a store error.
pub struct StoreErrorView {
    pub fault: Fault,
    pub entity: EntityKind,
    pub key: Seq<char>,
}

impl DeepView for StoreError {
    type V = StoreErrorView;

    open spec fn deep_view(&self) -> StoreErrorView {
        StoreErrorView { fault: self.fault, entity: self.entity, key: self.key.deep_view() }
    }
}

impl StoreError {
    /// The error for `fault` in an operation on the entity `key` of kind
    /// `entity`.
    pub fn new(fault: Fault, entity: EntityKind, key: &String) -> (error: Self)
        ensures
            error.deep_view() == (StoreErrorView { fault, entity, key: key.deep_view() }),
    {
        StoreError { fault, entity, key: key.duplicate() }
    }

    /// Whether the error says that the entity has no current version.
    pub fn is_not_found(&self) -> (missing: bool)
        ensures
            missing == (self.fault == Fault::NotFound),
    {
        match self.fault {
            Fault::NotFound => true,
            Fault::InvariantViolation => false,
        }
    }
}

} // verus!
