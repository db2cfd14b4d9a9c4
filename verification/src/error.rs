//! Why an operation on the economy was turned down.

use vstd::prelude::*;

verus! {

/// The reason an operation left the economy untouched.
#[derive(Clone, Copy, Debug, PartialEq, Eq, Structural)]
pub enum EconomyError {
    /// The factory or the player is unknown.
    NotFound,
    /// The player holds no unit of the factory.
    NotOwned,
    /// The shift's output does not fit into the inventory.
    CapacityExceeded {
        capacity: i32,
        /// Goods held before the shift, all kinds together.
        current: i64,
        /// Goods the shift would have added.
        produced: i32,
    },
    /// Less energy than a shift costs.
    InsufficientEnergy,
    /// Too little gold or special currency for the upgrade.
    InsufficientResources,
    /// The catalog has no next level for the factory's product.
    NoUpgradePath,
    /// The store saw a concurrent change to the player's rows.
    Conflict,
    /// The store could not hold what the operation would have written.
    StoreError,
}

/// The four families of failure.
#[derive(Clone, Copy, Debug, PartialEq, Eq, Structural)]
pub enum ErrorClass {
    /// Expected and recoverable: the request did not meet a rule of the game.
    ValidationRejection,
    /// Something the request names does not exist.
    NotFoundError,
    /// Isolation was violated; the whole operation may be tried again.
    ConflictError,
    /// The store failed; fatal to the call.
    StoreError,
}

impl EconomyError {
    /// The family that each reason belongs to.
    pub open spec fn class_of(self) -> ErrorClass {
        match self {
            EconomyError::NotOwned
            | EconomyError::CapacityExceeded { .. }
            | EconomyError::InsufficientEnergy
            | EconomyError::InsufficientResources => ErrorClass::ValidationRejection,
            EconomyError::NotFound | EconomyError::NoUpgradePath => ErrorClass::NotFoundError,
            EconomyError::Conflict => ErrorClass::ConflictError,
            EconomyError::StoreError => ErrorClass::StoreError,
        }
    }

    /// The family of this failure.
    pub fn class(&self) -> (class: ErrorClass)
        ensures
            class == self.class_of(),
    {
        match self {
            EconomyError::NotOwned => ErrorClass::ValidationRejection,
            EconomyError::CapacityExceeded { .. } => ErrorClass::ValidationRejection,
            EconomyError::InsufficientEnergy => ErrorClass::ValidationRejection,
            EconomyError::InsufficientResources => ErrorClass::ValidationRejection,
            EconomyError::NotFound => ErrorClass::NotFoundError,
            EconomyError::NoUpgradePath => ErrorClass::NotFoundError,
            EconomyError::Conflict => ErrorClass::ConflictError,
            EconomyError::StoreError => ErrorClass::StoreError,
        }
    }
}

} // verus!
