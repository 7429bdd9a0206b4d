//! The indexer: a registry of names and addresses that resolves dotted names
//! through the indexers it lists.

pub mod coin_helpers;
pub mod contract;
pub mod msg;
pub mod laws;
pub mod state;
