use vstd::prelude::*;

use crate::rules::{
    check_deposit, deposit_error, fee_part, payout, payout_of, reward_part, rewards_total,
    split_deposit, transfers_total,
};
use crate::types::{Address, Payment, PoolError, Reward, TokenId, Transfer};

verus! {

/// The pending rewards of one escrow, oldest first.
#[derive(Clone, Debug)]
pub struct EscrowRewards {
    pub escrow_address: Address,
    pub rewards: Vec<Reward>,
}

/// State of the rewards pool: its configuration, the fee pool, and for each
/// escrow the rewards that wait to be paid out.
#[derive(Clone, Debug)]
pub struct RewardsPool {
    pub owner: Address,
    pub rewards_token: Option<TokenId>,
    pub protocol_fee: Option<u128>,
    pub staking_contract_address: Option<Address>,
    pub total_fee: u128,
    pub ledger: Vec<EscrowRewards>,
}

/// `cur` if it is set, else `v`.
pub open spec fn set_if_empty<T>(cur: Option<T>, v: T) -> Option<T> {
    match cur {
        Some(x) => Some(x),
        None => Some(v),
    }
}

/// The reward that a deposit of `amount` records, if any.
pub open spec fn recorded(
    escrow_address: Address,
    slasher: Address,
    amount: u128,
    protocol_fee: u128,
) -> Option<Reward> {
    match reward_part(amount, protocol_fee) {
        Some(t) => Some(Reward { escrow_address, slasher, tokens: t }),
        None => None,
    }
}

impl RewardsPool {
    /// No escrow has two entries in the ledger, and no entry is empty.
    pub open spec fn wf(&self) -> bool {
        &&& forall|i: int, j: int|
            0 <= i < self.ledger@.len() && 0 <= j < self.ledger@.len() && i != j
                ==> #[trigger] self.ledger@[i].escrow_address != #[trigger] self.ledger@[j].escrow_address
        &&& forall|i: int| 0 <= i < self.ledger@.len() ==> #[trigger] self.ledger@[i].rewards@.len() > 0
    }

    /// The rewards that wait to be paid out for escrow `e`, oldest first.
    pub open spec fn pending(&self, e: Address) -> Seq<Reward> {
        if exists|i: int|
            0 <= i < self.ledger@.len() && #[trigger] self.ledger@[i].escrow_address == e {
            self.ledger@[choose|i: int|
                0 <= i < self.ledger@.len() && #[trigger] self.ledger@[i].escrow_address
                    == e].rewards@
        } else {
            Seq::empty()
        }
    }

    /// The fee in force: zero until one is configured.
    pub open spec fn fee(&self) -> u128 {
        match self.protocol_fee {
            Some(f) => f,
            None => 0,
        }
    }

    /// The configuration and the owner are those of `o`.
    pub open spec fn same_config(&self, o: &Self) -> bool {
        &&& self.owner == o.owner
        &&& self.rewards_token == o.rewards_token
        &&& self.protocol_fee == o.protocol_fee
        &&& self.staking_contract_address == o.staking_contract_address
    }

    /// `self` is what `init` makes of `before` with these arguments: each
    /// setting that `before` lacks is taken from them, and nothing else changes.
    pub open spec fn is_init_of(
        &self,
        before: &Self,
        rewards_token: TokenId,
        protocol_fee: u128,
        staking_contract_address: Address,
    ) -> bool {
        &&& self.rewards_token == set_if_empty(before.rewards_token, rewards_token)
        &&& self.protocol_fee == set_if_empty(before.protocol_fee, protocol_fee)
        &&& self.staking_contract_address == set_if_empty(
            before.staking_contract_address,
            staking_contract_address,
        )
        &&& self.owner == before.owner
        &&& self.total_fee == before.total_fee
        &&& self.ledger == before.ledger
    }

    /// What `add_reward` refuses, if anything: the deposit checks, then a fee
    /// pool that would overflow.
    pub open spec fn add_reward_error(&self, caller: Address, payment: Payment) -> Option<
        PoolError,
    > {
        match deposit_error(caller, self.staking_contract_address, self.rewards_token, payment) {
            Some(e) => Some(e),
            None => if self.total_fee + fee_part(payment.amount, self.fee()) > u128::MAX {
                Some(PoolError::FeeOverflow)
            } else {
                None
            },
        }
    }

    proof fn lemma_pending_at(&self, i: int)
        requires
            self.wf(),
            0 <= i < self.ledger@.len(),
        ensures
            self.pending(self.ledger@[i].escrow_address) == self.ledger@[i].rewards@,
    {
        let e = self.ledger@[i].escrow_address;
        assert(self.ledger@[i].escrow_address == e);
    }

    proof fn lemma_same_ledger(a: Self, b: Self)
        requires
            a.ledger == b.ledger,
        ensures
            forall|e: Address| #[trigger] a.pending(e) == b.pending(e),
    {
    }

    /// A new pool owned by `owner`, with no configuration, no fee and no rewards.
    pub fn new(owner: Address) -> (r: RewardsPool)
        ensures
            r.wf(),
            r.owner == owner,
            r.rewards_token is None,
            r.protocol_fee is None,
            r.staking_contract_address is None,
            r.total_fee == 0,
            forall|e: Address| r.pending(e) == Seq::<Reward>::empty(),
    {
        RewardsPool {
            owner,
            rewards_token: None,
            protocol_fee: None,
            staking_contract_address: None,
            total_fee: 0,
            ledger: Vec::new(),
        }
    }


    fn find_escrow(&self, e: &Address) -> (r: Option<usize>)
        ensures
            match r {
                Some(i) => i < self.ledger@.len() && self.ledger@[i as int].escrow_address == *e,
                None => forall|i: int|
                    0 <= i < self.ledger@.len() ==> #[trigger] self.ledger@[i].escrow_address
                        != *e,
            },
    {
        let mut i: usize = 0;
        while i < self.ledger.len()
            invariant
                0 <= i <= self.ledger@.len(),
                forall|j: int| 0 <= j < i ==> #[trigger] self.ledger@[j].escrow_address != *e,
            decreases self.ledger@.len() - i,
        {
            if self.ledger[i].escrow_address == *e {
                return Some(i);
            }
            i += 1;
        }
        None
    }

    /// Appends `w` to the pending rewards of its escrow.
    fn record(&mut self, w: Reward)
        requires
            old(self).wf(),
        ensures
            final(self).wf(),
            final(self).same_config(old(self)),
            final(self).total_fee == old(self).total_fee,
            final(self).pending(w.escrow_address) == old(self).pending(w.escrow_address).push(w),
            forall|e: Address|
                e != w.escrow_address ==> #[trigger] final(self).pending(e) == old(self).pending(e),
    {
        let ghost s0 = *self;
        let e = w.escrow_address;
        match self.find_escrow(&e) {
            Some(i) => {
                let mut entry = self.ledger.remove(i);
                entry.rewards.push(w);
                self.ledger.insert(i, entry);
                assert(entry.rewards@.len() > 0);
                assert(self.ledger@ =~= s0.ledger@.update(i as int, entry));
                assert(forall|j: int|
                    0 <= j < self.ledger@.len() ==> #[trigger] self.ledger@[j].escrow_address
                        == s0.ledger@[j].escrow_address);
                proof {
                    s0.lemma_pending_at(i as int);
                    self.lemma_pending_at(i as int);
                }
                assert forall|x: Address| x != e implies #[trigger] self.pending(x) == s0.pending(
                    x,
                ) by {
                    if exists|j: int|
                        0 <= j < s0.ledger@.len() && #[trigger] s0.ledger@[j].escrow_address
                            == x {
                        let j = choose|j: int|
                            0 <= j < s0.ledger@.len() && #[trigger] s0.ledger@[j].escrow_address
                                == x;
                        s0.lemma_pending_at(j);
                        self.lemma_pending_at(j);
                    } else {
                        assert(!exists|j: int|
                            0 <= j < self.ledger@.len() && #[trigger] self.ledger@[j].escrow_address
                                == x);
                    }
                }
            },
            None => {
                let entry = EscrowRewards { escrow_address: e, rewards: vec![w] };
                self.ledger.push(entry);
                assert(entry.rewards@.len() > 0);
                assert(self.ledger@ =~= s0.ledger@.push(entry));
                proof {
                    let n = s0.ledger@.len() as int;
                    self.lemma_pending_at(n);
                    assert(self.ledger@[n].rewards@ =~= s0.pending(e).push(w));
                }
                assert forall|x: Address| x != e implies #[trigger] self.pending(x) == s0.pending(
                    x,
                ) by {
                    if exists|j: int|
                        0 <= j < s0.ledger@.len() && #[trigger] s0.ledger@[j].escrow_address
                            == x {
                        let j = choose|j: int|
                            0 <= j < s0.ledger@.len() && #[trigger] s0.ledger@[j].escrow_address
                                == x;
                        s0.lemma_pending_at(j);
                        self.lemma_pending_at(j);
                    } else {
                        assert(!exists|j: int|
                            0 <= j < self.ledger@.len() && #[trigger] self.ledger@[j].escrow_address
                                == x);
                    }
                }
            },
        }
    }






}

/// The endpoints of the rewards pool. Each call is one atomic step on the
/// state given by `state`.
pub trait RewardsPoolContract {
    /// The pool state that the contract holds.
    spec fn state(&self) -> RewardsPool;

    /// Sets each of the rewards token, the fee and the staking contract that
    /// is not set yet; one that is set is kept.
    fn init(
        &mut self,
        rewards_token: TokenId,
        protocol_fee: u128,
        staking_contract_address: Address,
    )
        ensures
            final(self).state().is_init_of(
                &old(self).state(),
                rewards_token,
                protocol_fee,
                staking_contract_address,
            ),
    ;

    /// Takes a deposit for `escrow_address` on behalf of `slasher`. The fee
    /// (or the whole deposit, when it is below the fee) goes to the fee pool
    /// and the rest is appended to the escrow's pending rewards; that reward is
    /// returned, as the record of the deposit. A refused deposit changes nothing.
    fn add_reward(
        &mut self,
        caller: Address,
        escrow_address: Address,
        slasher: Address,
        payment: &Payment,
    ) -> (r: Result<Option<Reward>, PoolError>)
        requires
            old(self).state().wf(),
        ensures
            final(self).state().wf(),
            match old(self).state().add_reward_error(caller, *payment) {
                Some(e) => r == Err::<Option<Reward>, PoolError>(e) && final(self).state() == old(self).state(),
                None => {
                    &&& r == Ok::<Option<Reward>, PoolError>(
                        recorded(escrow_address, slasher, payment.amount, old(self).state().fee()),
                    )
                    &&& final(self).state().same_config(&old(self).state())
                    &&& final(self).state().total_fee == old(self).state().total_fee + fee_part(
                        payment.amount,
                        old(self).state().fee(),
                    )
                    &&& final(self).state().pending(escrow_address) == match r {
                        Ok(Some(w)) => old(self).state().pending(escrow_address).push(w),
                        _ => old(self).state().pending(escrow_address),
                    }
                    &&& forall|e: Address|
                        e != escrow_address ==> #[trigger] final(self).state().pending(e) == old(
                            self,
                        ).state().pending(e)
                },
            },
            r matches Ok(Some(w)) ==> w.tokens + old(self).state().fee() == payment.amount,
            r matches Ok(None) ==> final(self).state().total_fee == old(self).state().total_fee + payment.amount,
    ;

    /// Pays out every pending reward of `escrow_address`, one transfer per
    /// entry in the order they were added, and clears the escrow's entry.
    /// Anyone may call it; an escrow with nothing pending is left as it is.
    fn distribute_rewards(&mut self, escrow_address: &Address) -> (r: Vec<Transfer>)
        requires
            old(self).state().wf(),
        ensures
            final(self).state().wf(),
            r@ == payout_of(old(self).state().pending(*escrow_address)),
            transfers_total(r@) == rewards_total(old(self).state().pending(*escrow_address)),
            final(self).state().pending(*escrow_address) == Seq::<Reward>::empty(),
            forall|e: Address|
                e != *escrow_address ==> #[trigger] final(self).state().pending(e) == old(self).state().pending(e),
            final(self).state().same_config(&old(self).state()),
            final(self).state().total_fee == old(self).state().total_fee,
            old(self).state().pending(*escrow_address).len() == 0 ==> final(self).state() == old(self).state(),
    ;

    /// Pays the whole fee pool to the owner and empties it; refused for any
    /// other caller.
    fn withdraw(&mut self, caller: Address) -> (r: Result<Transfer, PoolError>)
        requires
            old(self).state().wf(),
        ensures
            final(self).state().wf(),
            caller != old(self).state().owner ==> r == Err::<Transfer, PoolError>(PoolError::NotOwner)
                && final(self).state() == old(self).state(),
            caller == old(self).state().owner ==> {
                &&& r == Ok::<Transfer, PoolError>(
                    (Transfer { to: caller, amount: old(self).state().total_fee }),
                )
                &&& final(self).state().total_fee == 0
                &&& final(self).state().same_config(&old(self).state())
                &&& final(self).state().ledger == old(self).state().ledger
            },
    ;

    /// The rewards that wait to be paid out for `escrow_address`, oldest first.
    fn get_rewards(&self, escrow_address: &Address) -> (r: Vec<Reward>)
        requires
            self.state().wf(),
        ensures
            r@ == self.state().pending(*escrow_address),
    ;

    /// The rewards token, once configured.
    fn get_rewards_token(&self) -> (r: &Option<TokenId>)
        ensures
            *r == self.state().rewards_token,
    ;

    /// The fee kept from each deposit, once configured.
    fn get_protocol_fee(&self) -> (r: Option<u128>)
        ensures
            r == self.state().protocol_fee,
    ;

    /// The only address allowed to add rewards, once configured.
    fn get_staking_contract_address(&self) -> (r: Option<Address>)
        ensures
            r == self.state().staking_contract_address,
    ;
}

impl RewardsPoolContract for RewardsPool {
    open spec fn state(&self) -> RewardsPool {
        *self
    }

    fn init(
        &mut self,
        rewards_token: TokenId,
        protocol_fee: u128,
        staking_contract_address: Address,
    ) {
        if self.rewards_token.is_none() {
            self.rewards_token = Some(rewards_token);
        }
        if self.protocol_fee.is_none() {
            self.protocol_fee = Some(protocol_fee);
        }
        if self.staking_contract_address.is_none() {
            self.staking_contract_address = Some(staking_contract_address);
        }
    }

    fn add_reward(
        &mut self,
        caller: Address,
        escrow_address: Address,
        slasher: Address,
        payment: &Payment,
    ) -> (r: Result<Option<Reward>, PoolError>) {
        if let Err(e) = check_deposit(
            &caller,
            &self.staking_contract_address,
            &self.rewards_token,
            payment,
        ) {
            return Err(e);
        }
        let fee = match self.protocol_fee {
            Some(f) => f,
            None => 0,
        };
        let (taken, reward) = split_deposit(payment.amount, fee);
        if taken > u128::MAX - self.total_fee {
            return Err(PoolError::FeeOverflow);
        }
        let ghost s0 = *self;
        self.total_fee = self.total_fee + taken;
        match reward {
            None => {
                proof {
                    RewardsPool::lemma_same_ledger(*self, s0);
                }
                Ok(None)
            },
            Some(tokens) => {
                let w = Reward { escrow_address, slasher, tokens };
                let ghost s1 = *self;
                proof {
                    RewardsPool::lemma_same_ledger(s1, s0);
                }
                self.record(w);
                Ok(Some(w))
            },
        }
    }

    fn distribute_rewards(&mut self, escrow_address: &Address) -> (r: Vec<Transfer>) {
        let ghost s0 = *self;
        match self.find_escrow(escrow_address) {
            Some(i) => {
                proof {
                    s0.lemma_pending_at(i as int);
                }
                let entry = self.ledger.remove(i);
                let transfers = payout(&entry.rewards);
                assert(self.ledger@ =~= s0.ledger@.remove(i as int));
                assert forall|x: Address| x != *escrow_address implies #[trigger] self.pending(x)
                    == s0.pending(x) by {
                    if exists|j: int|
                        0 <= j < s0.ledger@.len() && #[trigger] s0.ledger@[j].escrow_address
                            == x {
                        let j = choose|j: int|
                            0 <= j < s0.ledger@.len() && #[trigger] s0.ledger@[j].escrow_address
                                == x;
                        s0.lemma_pending_at(j);
                        let k = if j < i { j } else { j - 1 };
                        assert(self.ledger@[k] == s0.ledger@[j]);
                        self.lemma_pending_at(k);
                    } else {
                        assert forall|k: int| 0 <= k < self.ledger@.len() implies #[trigger] self.ledger@[k].escrow_address != x by {
                            if k < i {
                                assert(self.ledger@[k] == s0.ledger@[k]);
                            } else {
                                assert(self.ledger@[k] == s0.ledger@[k + 1]);
                            }
                        }
                    }
                }
                assert forall|k: int| 0 <= k < self.ledger@.len() implies #[trigger] self.ledger@[k].escrow_address != *escrow_address by {
                    if k < i {
                        assert(self.ledger@[k] == s0.ledger@[k]);
                    } else {
                        assert(self.ledger@[k] == s0.ledger@[k + 1]);
                    }
                }
                transfers
            },
            None => {
                let transfers: Vec<Transfer> = Vec::new();
                assert(transfers@ =~= payout_of(s0.pending(*escrow_address)));
                transfers
            },
        }
    }

    fn withdraw(&mut self, caller: Address) -> (r: Result<Transfer, PoolError>) {
        if caller != self.owner {
            return Err(PoolError::NotOwner);
        }
        let amount = self.total_fee;
        self.total_fee = 0;
        Ok(Transfer { to: caller, amount })
    }

    fn get_rewards(&self, escrow_address: &Address) -> (r: Vec<Reward>) {
        match self.find_escrow(escrow_address) {
            Some(i) => {
                proof {
                    self.lemma_pending_at(i as int);
                }
                let rewards = &self.ledger[i].rewards;
                let mut out: Vec<Reward> = Vec::new();
                let mut k: usize = 0;
                while k < rewards.len()
                    invariant
                        0 <= k <= rewards@.len(),
                        out@ =~= rewards@.take(k as int),
                    decreases rewards@.len() - k,
                {
                    out.push(rewards[k]);
                    assert(rewards@.take(k as int + 1) =~= rewards@.take(k as int).push(rewards@[k as int]));
                    k += 1;
                }
                assert(rewards@.take(rewards@.len() as int) =~= rewards@);
                out
            },
            None => Vec::new(),
        }
    }

    fn get_rewards_token(&self) -> (r: &Option<TokenId>) {
        &self.rewards_token
    }

    fn get_protocol_fee(&self) -> (r: Option<u128>) {
        self.protocol_fee
    }

    fn get_staking_contract_address(&self) -> (r: Option<Address>) {
        self.staking_contract_address
    }
}

} // verus!
