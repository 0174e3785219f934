//! Header-chain triage and reference cache for a blockchain node.

pub mod blockcfg;
pub mod cache_laws;
pub mod purge;
pub mod quarantine;
pub mod reference_cache;
pub mod rest_api;
pub mod transaction_info;
