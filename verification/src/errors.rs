//! Error taxonomies of the two components.

use vstd::prelude::*;

verus! {

/// Rejection reasons of the share-ledger operations.
#[derive(Clone, Copy, Debug, PartialEq, Eq, Structural)]
pub enum TokenError {
    /// `initialize` was called on an already-initialized ledger.
    AlreadyInitialized,
    /// The invoking principal is not the ledger's administrator.
    NotAdmin,
    /// The ledger is paused; mint and transfer are rejected.
    Paused,
    /// The receiving address is not on the whitelist.
    NotWhitelisted,
    /// The sender holds fewer units than the transfer asks for.
    InsufficientBalance,
    /// Minting would push the total supply over the fixed cap.
    SupplyOverflow,
    /// A non-positive amount, or invalid initialization arguments.
    InvalidAmount,
}

/// Rejection reasons of the registry and distribution operations.
#[derive(Clone, Copy, Debug, PartialEq, Eq, Structural)]
pub enum VaultError {
    /// `initialize` was called on an already-initialized registry.
    AlreadyInitialized,
    /// The invoking principal is not the registry's administrator.
    NotAdmin,
    /// The invoking principal is not a registered consultant.
    NotConsultant,
    /// The identifier already names a record in its namespace.
    DuplicateId,
    /// No record carries the given identifier.
    NotFound,
    /// An invalid argument: an empty identifier or name, a non-positive
    /// amount, or a distribution against an all-zero snapshot.
    Invalid,
    /// The record is not in the lifecycle state the transition asks for.
    BadStatus,
    /// An arithmetic overflow while accumulating amounts.
    Math,
}

} // verus!
