use vstd::prelude::*;

verus! {

/// The address that a name resolves to, if any.
#[derive(Clone, Debug, PartialEq)]
pub struct LookUpResponse {
    pub addr: Option<String>,
}

/// The name that an address is registered under, if any.
#[derive(Clone, Debug, PartialEq)]
pub struct ReverseLookUpResponse {
    pub name: Option<String>,
}

} // verus!
