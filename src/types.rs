use vstd::prelude::*;

verus! {

/// A 32-byte account address.
#[derive(Clone, Copy, Debug)]
pub struct Address {
    pub bytes: [u8; 32],
}

impl Address {
    pub fn new(bytes: [u8; 32]) -> (r: Address)
        ensures
            r.bytes == bytes,
    {
        Address { bytes }
    }
}

impl PartialEq for Address {
    fn eq(&self, o: &Address) -> (r: bool) {
        let mut i: usize = 0;
        while i < 32
            invariant
                0 <= i <= 32,
                forall|j: int| 0 <= j < i ==> self.bytes@[j] == o.bytes@[j],
            decreases 32 - i,
        {
            if self.bytes[i] != o.bytes[i] {
                return false;
            }
            i += 1;
        }
        assert(self.bytes =~= o.bytes);
        true
    }
}

impl vstd::std_specs::cmp::PartialEqSpecImpl for Address {
    open spec fn obeys_eq_spec() -> bool {
        true
    }

    open spec fn eq_spec(&self, o: &Address) -> bool {
        self.bytes == o.bytes
    }
}

impl Eq for Address {
}

/// Identifier of a fungible token, as its bytes (for example `REW-abcdef`).
#[derive(Clone, Debug)]
pub struct TokenId {
    pub bytes: Vec<u8>,
}

impl View for TokenId {
    type V = Seq<u8>;

    open spec fn view(&self) -> Seq<u8> {
        self.bytes@
    }
}

impl TokenId {
    pub fn new(bytes: Vec<u8>) -> (r: TokenId)
        ensures
            r@ == bytes@,
    {
        TokenId { bytes }
    }

    /// Whether two identifiers are the same byte string.
    pub fn same_as(&self, o: &TokenId) -> (r: bool)
        ensures
            r == (self@ == o@),
    {
        if self.bytes.len() != o.bytes.len() {
            return false;
        }
        let mut i: usize = 0;
        while i < self.bytes.len()
            invariant
                0 <= i <= self.bytes@.len(),
                self.bytes@.len() == o.bytes@.len(),
                forall|j: int| 0 <= j < i ==> self.bytes@[j] == o.bytes@[j],
            decreases self.bytes@.len() - i,
        {
            if self.bytes[i] != o.bytes[i] {
                return false;
            }
            i += 1;
        }
        assert(self@ =~= o@);
        true
    }
}

/// An amount owed to `slasher` on account of `escrow_address`.
#[derive(Clone, Copy, Debug, PartialEq, Eq)]
pub struct Reward {
    pub escrow_address: Address,
    pub slasher: Address,
    pub tokens: u128,
}

/// A payment attached to a call: token identifier, nonce and amount.
#[derive(Clone, Debug)]
pub struct Payment {
    pub token: TokenId,
    pub nonce: u64,
    pub amount: u128,
}

/// A transfer of `amount` units of the rewards token to `to`.
#[derive(Clone, Copy, Debug, PartialEq, Eq)]
pub struct Transfer {
    pub to: Address,
    pub amount: u128,
}

/// Why a call was refused; a refused call leaves the state as it was.
#[derive(Clone, Copy, Debug, PartialEq, Eq, Structural)]
pub enum PoolError {
    /// The caller of `add_reward` is not the staking contract.
    NotStakingContract,
    /// The attached payment is not in the rewards token.
    InvalidToken,
    /// The attached payment has a nonce other than zero.
    InvalidTokenNonce,
    /// The attached payment is zero.
    ZeroAmount,
    /// The caller of `withdraw` is not the owner.
    NotOwner,
    /// The fee pool would exceed the largest amount it can hold.
    FeeOverflow,
}

} // verus!
