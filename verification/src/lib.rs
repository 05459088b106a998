//! Accounting core of a tokenized receivables fund.
//!
//! Two components share this crate. The share ledger ([`token::FundToken`])
//! is a capped, whitelist-gated balance ledger for one fund's ownership
//! units. The receivable registry ([`vault::ReceivableVault`]) owns entity
//! onboarding, receivable records, and the pro-rata distribution engine
//! that pays fund-share holders when a receivable is collected.
//!
//! Storage, authorization proofs, and event emission are the host's
//! business: every operation here is a pure transition on an explicit
//! state value, and callers pass the invoking principal in as a plain
//! identity where an operation is gated on it.

pub mod bytes;
pub mod distribution;
pub mod errors;
pub mod holdings;
pub mod records;
pub mod token;
pub mod vault;
