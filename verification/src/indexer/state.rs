use vstd::prelude::*;

use crate::coin::Coin;

verus! {

/// What an indexer is set up with: the price of a registration, the accounts
/// that may move names, and whether an address may move its own name.
#[derive(Clone, Debug, PartialEq)]
pub struct Config {
    pub price: Option<Coin>,
    pub admin: Option<Vec<String>>,
    pub owner_can_update: bool,
}

} // verus!
