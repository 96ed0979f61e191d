use vstd::prelude::*;

use crate::types::{Address, Payment, PoolError, Reward, TokenId, Transfer};

verus! {

/// The part of a deposit of `amount` that goes to the fee pool: the fixed fee,
/// or the whole deposit when it is below the fee.
pub open spec fn fee_part(amount: u128, protocol_fee: u128) -> u128 {
    if amount < protocol_fee {
        amount
    } else {
        protocol_fee
    }
}

/// The reward recorded for a deposit of `amount`: none when the deposit is
/// below the fee, else what is left after the fee.
pub open spec fn reward_part(amount: u128, protocol_fee: u128) -> Option<u128> {
    if amount < protocol_fee {
        None
    } else {
        Some((amount - protocol_fee) as u128)
    }
}

/// The first condition on a deposit that fails, if any: the caller must be the
/// staking contract, the payment must be in the rewards token, with nonce zero,
/// and not zero.
pub open spec fn deposit_error(
    caller: Address,
    staking: Option<Address>,
    rewards_token: Option<TokenId>,
    payment: Payment,
) -> Option<PoolError> {
    if staking != Some(caller) {
        Some(PoolError::NotStakingContract)
    } else if !(rewards_token is Some && rewards_token->0@ == payment.token@) {
        Some(PoolError::InvalidToken)
    } else if payment.nonce != 0 {
        Some(PoolError::InvalidTokenNonce)
    } else if payment.amount == 0 {
        Some(PoolError::ZeroAmount)
    } else {
        None
    }
}

/// The transfer that pays out one reward.
pub open spec fn transfer_for(w: Reward) -> Transfer {
    Transfer { to: w.slasher, amount: w.tokens }
}

/// The transfers that pay out `rewards`, one per entry, in order.
pub open spec fn payout_of(rewards: Seq<Reward>) -> Seq<Transfer> {
    rewards.map_values(|w: Reward| transfer_for(w))
}

/// The sum of the amounts of `rewards`.
pub open spec fn rewards_total(rewards: Seq<Reward>) -> int
    decreases rewards.len(),
{
    if rewards.len() == 0 {
        0
    } else {
        rewards_total(rewards.drop_last()) + rewards.last().tokens
    }
}

/// The sum of the amounts of `transfers`.
pub open spec fn transfers_total(transfers: Seq<Transfer>) -> int
    decreases transfers.len(),
{
    if transfers.len() == 0 {
        0
    } else {
        transfers_total(transfers.drop_last()) + transfers.last().amount
    }
}

/// Paying out a sequence of rewards one transfer per entry moves exactly the
/// sum of the recorded amounts.
pub proof fn lemma_payout_total(rewards: Seq<Reward>)
    ensures
        transfers_total(payout_of(rewards)) == rewards_total(rewards),
    decreases rewards.len(),
{
    if rewards.len() > 0 {
        lemma_payout_total(rewards.drop_last());
        assert(payout_of(rewards.drop_last()) =~= payout_of(rewards).drop_last());
    }
}

/// Access check of `add_reward`: only the staking contract may add rewards.
pub fn require_only_staking(caller: &Address, staking: &Option<Address>) -> (r: Result<
    (),
    PoolError,
>)
    ensures
        r == (if *staking == Some(*caller) {
            Ok(())
        } else {
            Err(PoolError::NotStakingContract)
        }),
{
    match staking {
        Some(s) => {
            if *s == *caller {
                Ok(())
            } else {
                Err(PoolError::NotStakingContract)
            }
        },
        None => Err(PoolError::NotStakingContract),
    }
}

/// Checks the caller and the attached payment of a deposit.
pub fn check_deposit(
    caller: &Address,
    staking: &Option<Address>,
    rewards_token: &Option<TokenId>,
    payment: &Payment,
) -> (r: Result<(), PoolError>)
    ensures
        r == (match deposit_error(*caller, *staking, *rewards_token, *payment) {
            Some(e) => Err(e),
            None => Ok(()),
        }),
{
    if let Err(e) = require_only_staking(caller, staking) {
        return Err(e);
    }
    let token_ok = match rewards_token {
        Some(t) => t.same_as(&payment.token),
        None => false,
    };
    if !token_ok {
        return Err(PoolError::InvalidToken);
    }
    if payment.nonce != 0 {
        return Err(PoolError::InvalidTokenNonce);
    }
    if payment.amount == 0 {
        return Err(PoolError::ZeroAmount);
    }
    Ok(())
}

/// Splits a deposit of `amount` into the part kept as fee and the reward that
/// is recorded, if any; the two parts add up to the deposit.
pub fn split_deposit(amount: u128, protocol_fee: u128) -> (r: (u128, Option<u128>))
    ensures
        r.0 == fee_part(amount, protocol_fee),
        r.1 == reward_part(amount, protocol_fee),
        r.0 + (match r.1 {
            Some(x) => x as int,
            None => 0,
        }) == amount,
{
    if amount < protocol_fee {
        (amount, None)
    } else {
        (protocol_fee, Some(amount - protocol_fee))
    }
}

/// The transfers that pay out `rewards`: one per entry, in order, never merged.
pub fn payout(rewards: &Vec<Reward>) -> (r: Vec<Transfer>)
    ensures
        r@ == payout_of(rewards@),
        transfers_total(r@) == rewards_total(rewards@),
{
    let mut out: Vec<Transfer> = Vec::new();
    let mut i: usize = 0;
    while i < rewards.len()
        invariant
            0 <= i <= rewards@.len(),
            out@ =~= payout_of(rewards@.take(i as int)),
        decreases rewards@.len() - i,
    {
        let w = rewards[i];
        out.push(Transfer { to: w.slasher, amount: w.tokens });
        assert(rewards@.take(i as int + 1) =~= rewards@.take(i as int).push(w));
        i += 1;
    }
    assert(rewards@.take(rewards@.len() as int) =~= rewards@);
    proof {
        lemma_payout_total(rewards@);
    }
    out
}

} // verus!
