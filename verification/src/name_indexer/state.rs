use vstd::prelude::*;

use crate::coin::Coin;

verus! {

/// The price of a registration, if any.
#[derive(Clone, Debug, PartialEq)]
pub struct Config {
    pub purchase_price: Option<Coin>,
}

} // verus!
