//! Verified core of a custodial wallet sweeper: deterministic key derivation,
//! the wallet claim queue, endpoint failover, the per-wallet sweep decisions,
//! the balance ledger and the worker retry policy.

pub mod address;
pub mod config;
pub mod decimal;
pub mod error;
pub mod gas;
pub mod keys;
pub mod ledger;
pub mod maintenance;
pub mod provider;
pub mod registry;
pub mod scheduler;
pub mod sweeper;
pub mod text;
pub mod uint;
pub mod wallet;
