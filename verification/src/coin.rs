use vstd::prelude::*;

verus! {

/// An amount of one token: its denomination and how many units.
#[derive(Clone, Debug, PartialEq)]
pub struct Coin {
    pub denom: String,
    pub amount: u128,
}

impl Coin {
    /// A copy of this coin.
    pub fn duplicate(&self) -> (c: Coin)
        ensures
            c == *self,
    {
        Coin { denom: self.denom.clone(), amount: self.amount }
    }
}

/// A copy of an optional coin.
pub fn duplicate_coin(c: &Option<Coin>) -> (r: Option<Coin>)
    ensures
        r == *c,
{
    match c {
        Some(coin) => Some(coin.duplicate()),
        None => None,
    }
}

} // verus!
