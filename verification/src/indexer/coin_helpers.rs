use vstd::prelude::*;

use crate::coin::Coin;
use crate::error::{ContractError, ErrorView};

verus! {

/// Whether the coins `sent` pay for `required`: nothing is owed where no
/// price or a price of zero is set; otherwise one coin of the required
/// denomination must carry at least the required amount.
pub open spec fn sufficient_funds(sent: Seq<Coin>, required: Option<Coin>) -> bool {
    match required {
        None => true,
        Some(c) => c.amount == 0 || exists|i: int|
            0 <= i < sent.len() && #[trigger] sent[i].denom@ == c.denom@ && sent[i].amount
                >= c.amount,
    }
}

/// Fails with `InsufficientFundsSend` unless `sent` pays for `required`.
pub fn assert_sent_sufficient_coin(sent: &[Coin], required: Option<Coin>) -> (res: Result<
    (),
    ContractError,
>)
    ensures
        res is Ok <==> sufficient_funds(sent@, required),
        res matches Err(e) ==> e@ == ErrorView::InsufficientFundsSend,
{
    if let Some(required_coin) = required {
        let required_amount = required_coin.amount;
        if required_amount > 0 {
            let mut i: usize = 0;
            while i < sent.len()
                invariant
                    i <= sent@.len(),
                    required_amount > 0,
                    required == Some(required_coin),
                    required_amount == required_coin.amount,
                    forall|k: int|
                        0 <= k < i ==> !(#[trigger] sent@[k].denom@ == required_coin.denom@
                            && sent@[k].amount >= required_amount),
                decreases sent@.len() - i,
            {
                if sent[i].denom == required_coin.denom && sent[i].amount >= required_amount {
                    assert(sent@[i as int].denom@ == required_coin.denom@);
                    return Ok(());
                }
                i = i + 1;
            }
            return Err(ContractError::InsufficientFundsSend {  });
        }
    }
    Ok(())
}

} // verus!
