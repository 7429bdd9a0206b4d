use vstd::prelude::*;

use crate::coin::Coin;
use crate::indexer::state::Config;

verus! {

/// The price of a registration, as a query reports it.
#[derive(Clone, Debug, PartialEq)]
pub struct PriceQuery {
    price: Option<Coin>,
}

impl PriceQuery {
    /// The price reported.
    pub closed spec fn spec_price(self) -> Option<Coin> {
        self.price
    }
}

impl From<Config> for PriceQuery {
    fn from(value: Config) -> (r: Self)
        ensures
            r.spec_price() == value.price,
    {
        Self { price: value.price }
    }
}

impl vstd::std_specs::convert::FromSpecImpl<Config> for PriceQuery {
    open spec fn obeys_from_spec() -> bool {
        true
    }

    closed spec fn from_spec(v: Config) -> Self {
        PriceQuery { price: v.price }
    }
}

#[derive(Clone, Debug, PartialEq)]
pub struct InstantiateMsg {
    pub price: Option<Coin>,
    pub admin: Option<Vec<String>>,
    pub owner_can_update: bool,
}

#[derive(Clone, Debug, PartialEq)]
pub enum ExecuteMsg {
    Register { address: String, name: String },
    Update { address: String, to: String },
}

#[derive(Clone, Debug, PartialEq)]
pub enum QueryMsg {
    Price {},
    LookUp { name: String },
    ReverseLookUp { addr: String },
}

} // verus!
