//! A deterministic accounting engine for an attention-economy marketplace.
//!
//! Viewers earn rewards for verified attention, creators and a protocol
//! treasury take cuts, and advertisers fund campaigns. Auxiliary subsystems
//! (credit lines, staking vaults, short-term loans) operate on the same
//! balances. Every state transition is a synchronous, deterministic function
//! of the aggregate ledger value, proved to preserve the books' invariants.

pub mod accounts;
pub mod amount;
pub mod arith;
pub mod campaign;
pub mod errors;
pub mod ledger;
pub mod logs;
pub mod ops;
pub mod queries;
pub mod registry;
pub mod text;
pub mod vault;
