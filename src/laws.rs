use vstd::prelude::*;

use crate::pool::RewardsPool;
use crate::rules::{payout_of, rewards_total, transfer_for, transfers_total};
use crate::types::{Address, Payment, PoolError, Reward, TokenId};

verus! {

/// A second `init`, whatever its arguments, leaves the configuration that the
/// first one left: the rewards token, the fee and the staking contract.
pub proof fn lemma_init_twice_keeps_first(
    p0: RewardsPool,
    p1: RewardsPool,
    p2: RewardsPool,
    token1: TokenId,
    fee1: u128,
    staking1: Address,
    token2: TokenId,
    fee2: u128,
    staking2: Address,
)
    requires
        p1.is_init_of(&p0, token1, fee1, staking1),
        p2.is_init_of(&p1, token2, fee2, staking2),
    ensures
        p2.same_config(&p1),
        p2.rewards_token is Some,
        p2.protocol_fee is Some,
        p2.staking_contract_address is Some,
        p0.rewards_token is None ==> p2.rewards_token == Some(token1),
        p0.protocol_fee is None ==> p2.protocol_fee == Some(fee1),
        p0.staking_contract_address is None ==> p2.staking_contract_address == Some(staking1),
{
}

/// `add_reward` from any caller but the staking contract is refused with
/// `NotStakingContract`, whatever the payment; a refused call changes nothing.
pub proof fn lemma_only_staking_adds(pool: RewardsPool, caller: Address, payment: Payment)
    requires
        pool.staking_contract_address != Some(caller),
    ensures
        pool.add_reward_error(caller, payment) == Some(PoolError::NotStakingContract),
{
}

/// A deposit that records `w` for escrow `e` adds exactly one transfer, of
/// `w.tokens` to `w.slasher`, at the end of what the next distribution of `e`
/// pays; so over any run of deposits, the distribution pays one transfer per
/// recorded reward, and their sum.
pub proof fn lemma_deposit_adds_one_transfer(
    before: RewardsPool,
    after: RewardsPool,
    e: Address,
    w: Reward,
)
    requires
        after.pending(e) == before.pending(e).push(w),
    ensures
        payout_of(after.pending(e)) == payout_of(before.pending(e)).push(transfer_for(w)),
        rewards_total(after.pending(e)) == rewards_total(before.pending(e)) + w.tokens,
        transfers_total(payout_of(after.pending(e))) == transfers_total(
            payout_of(before.pending(e)),
        ) + w.tokens,
{
    let s = after.pending(e);
    assert(s.drop_last() =~= before.pending(e));
    assert(payout_of(s) =~= payout_of(before.pending(e)).push(transfer_for(w)));
    assert(payout_of(s).drop_last() =~= payout_of(before.pending(e)));
}

} // verus!
