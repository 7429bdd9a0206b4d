use vstd::prelude::*;

verus! {

#[derive(Clone, Debug, PartialEq)]
pub enum Cw5QueryMsg {
    LookUp { name: String },
    ReverseLookUp { address: String },
}

/// Namespace of the map from addresses to names.
pub const NAMES_KEY: &'static str = "names";

/// Namespace of the map from names to addresses.
pub const ADDR_KEY: &'static str = "address";

} // verus!
