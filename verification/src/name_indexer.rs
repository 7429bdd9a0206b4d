//! The messages and configuration of the priced name indexer.

pub mod msg;
pub mod state;
