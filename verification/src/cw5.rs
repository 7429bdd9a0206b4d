//! The name-resolution interface that indexers answer to.

pub mod helpers;
pub mod msg;
pub mod query;

pub use crate::cw5::helpers::{LookUpResponse, ReverseLookUpResponse};
pub use crate::cw5::msg::Cw5ExecuteMsg;
pub use crate::cw5::query::Cw5QueryMsg;
