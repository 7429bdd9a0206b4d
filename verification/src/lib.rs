//! Name registries for CosmWasm contracts: an indexer that maps names to
//! addresses and back and resolves dotted names through the indexers it
//! lists, the messages of a priced name indexer and of the name-resolution
//! interface, and the helpers of a named cw4 group.

pub mod coin;
pub mod cw5;
pub mod error;
pub mod group;
pub mod indexer;
pub mod name_indexer;
pub mod store;
pub mod text;
