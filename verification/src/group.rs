//! The named cw4 group: its messages and helpers.

pub mod helpers;
pub mod msg;
