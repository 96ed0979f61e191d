use rewards_pool::pool::{RewardsPool, RewardsPoolContract};
use rewards_pool::rules::{check_deposit, payout, require_only_staking, split_deposit};
use rewards_pool::types::{Address, Payment, PoolError, Reward, TokenId, Transfer};

fn addr(b: u8) -> Address {
    Address::new([b; 32])
}

fn token() -> TokenId {
    TokenId::new(b"REW-123456".to_vec())
}

const OWNER: u8 = 1;
const STAKING: u8 = 2;
const ESCROW: u8 = 3;
const SLASHER: u8 = 4;

fn pool_with_fee(fee: u128) -> RewardsPool {
    let mut p = RewardsPool::new(addr(OWNER));
    p.init(token(), fee, addr(STAKING));
    p
}

fn pay(amount: u128) -> Payment {
    Payment { token: token(), nonce: 0, amount }
}

#[test]
fn deposit_above_fee_records_reward() {
    let mut p = pool_with_fee(10);
    let r = p.add_reward(addr(STAKING), addr(ESCROW), addr(SLASHER), &pay(100));
    let w = Reward { escrow_address: addr(ESCROW), slasher: addr(SLASHER), tokens: 90 };
    assert_eq!(r, Ok(Some(w)));
    assert_eq!(p.total_fee, 10);
    assert_eq!(p.get_rewards(&addr(ESCROW)), vec![w]);
}

#[test]
fn deposit_below_fee_goes_to_fee_pool() {
    let mut p = pool_with_fee(10);
    let r = p.add_reward(addr(STAKING), addr(ESCROW), addr(SLASHER), &pay(5));
    assert_eq!(r, Ok(None));
    assert_eq!(p.total_fee, 5);
    assert!(p.get_rewards(&addr(ESCROW)).is_empty());
}

#[test]
fn deposit_equal_to_fee_records_zero_reward() {
    let mut p = pool_with_fee(10);
    let r = p.add_reward(addr(STAKING), addr(ESCROW), addr(SLASHER), &pay(10));
    let w = Reward { escrow_address: addr(ESCROW), slasher: addr(SLASHER), tokens: 0 };
    assert_eq!(r, Ok(Some(w)));
    assert_eq!(p.total_fee, 10);
}

#[test]
fn fee_accumulates_over_deposits() {
    let mut p = pool_with_fee(10);
    p.add_reward(addr(STAKING), addr(ESCROW), addr(SLASHER), &pay(100)).unwrap();
    p.add_reward(addr(STAKING), addr(ESCROW), addr(SLASHER), &pay(7)).unwrap();
    p.add_reward(addr(STAKING), addr(9), addr(SLASHER), &pay(30)).unwrap();
    assert_eq!(p.total_fee, 27);
}

#[test]
fn two_deposits_paid_as_separate_transfers() {
    let mut p = pool_with_fee(10);
    p.add_reward(addr(STAKING), addr(ESCROW), addr(SLASHER), &pay(100)).unwrap();
    p.add_reward(addr(STAKING), addr(ESCROW), addr(SLASHER), &pay(50)).unwrap();
    let t = p.distribute_rewards(&addr(ESCROW));
    assert_eq!(
        t,
        vec![
            Transfer { to: addr(SLASHER), amount: 90 },
            Transfer { to: addr(SLASHER), amount: 40 },
        ]
    );
    assert!(p.get_rewards(&addr(ESCROW)).is_empty());
    assert!(p.distribute_rewards(&addr(ESCROW)).is_empty());
}

#[test]
fn distribution_pays_recorded_total_and_keeps_other_escrows() {
    let mut p = pool_with_fee(1);
    for (i, amount) in [11u128, 21, 31].iter().enumerate() {
        p.add_reward(addr(STAKING), addr(ESCROW), addr(10 + i as u8), &pay(*amount)).unwrap();
    }
    p.add_reward(addr(STAKING), addr(8), addr(SLASHER), &pay(6)).unwrap();
    let t = p.distribute_rewards(&addr(ESCROW));
    assert_eq!(t.len(), 3);
    assert_eq!(t.iter().map(|x| x.amount).sum::<u128>(), 60);
    assert_eq!(t[2].to, addr(12));
    assert!(p.get_rewards(&addr(ESCROW)).is_empty());
    let other = p.get_rewards(&addr(8));
    assert_eq!(other.len(), 1);
    assert_eq!(other[0].tokens, 5);
    assert_eq!(p.total_fee, 4);
}

#[test]
fn distribute_empty_escrow_is_noop() {
    let mut p = pool_with_fee(10);
    p.add_reward(addr(STAKING), addr(8), addr(SLASHER), &pay(20)).unwrap();
    let t = p.distribute_rewards(&addr(ESCROW));
    assert!(t.is_empty());
    assert_eq!(p.ledger.len(), 1);
    assert_eq!(p.total_fee, 10);
}

#[test]
fn add_reward_from_other_caller_refused() {
    let mut p = pool_with_fee(10);
    let r = p.add_reward(addr(OWNER), addr(ESCROW), addr(SLASHER), &pay(100));
    assert_eq!(r, Err(PoolError::NotStakingContract));
    assert_eq!(p.total_fee, 0);
    assert!(p.get_rewards(&addr(ESCROW)).is_empty());
}

#[test]
fn add_reward_with_nonce_one_refused() {
    let mut p = pool_with_fee(10);
    let payment = Payment { token: token(), nonce: 1, amount: 100 };
    let r = p.add_reward(addr(STAKING), addr(ESCROW), addr(SLASHER), &payment);
    assert_eq!(r, Err(PoolError::InvalidTokenNonce));
    assert_eq!(p.total_fee, 0);
    assert!(p.ledger.is_empty());
}

#[test]
fn add_reward_with_other_token_refused() {
    let mut p = pool_with_fee(10);
    let payment = Payment { token: TokenId::new(b"OTHER-654321".to_vec()), nonce: 0, amount: 100 };
    let r = p.add_reward(addr(STAKING), addr(ESCROW), addr(SLASHER), &payment);
    assert_eq!(r, Err(PoolError::InvalidToken));
    assert_eq!(p.total_fee, 0);
}

#[test]
fn add_reward_with_zero_amount_refused() {
    let mut p = pool_with_fee(10);
    let r = p.add_reward(addr(STAKING), addr(ESCROW), addr(SLASHER), &pay(0));
    assert_eq!(r, Err(PoolError::ZeroAmount));
    assert!(p.ledger.is_empty());
}

#[test]
fn add_reward_before_init_refused() {
    let mut p = RewardsPool::new(addr(OWNER));
    let r = p.add_reward(addr(STAKING), addr(ESCROW), addr(SLASHER), &pay(100));
    assert_eq!(r, Err(PoolError::NotStakingContract));
}

#[test]
fn fee_pool_overflow_refused() {
    let mut p = pool_with_fee(10);
    p.total_fee = u128::MAX - 5;
    let r = p.add_reward(addr(STAKING), addr(ESCROW), addr(SLASHER), &pay(100));
    assert_eq!(r, Err(PoolError::FeeOverflow));
    assert_eq!(p.total_fee, u128::MAX - 5);
    assert!(p.ledger.is_empty());
}

#[test]
fn withdraw_by_owner_takes_whole_pool() {
    let mut p = pool_with_fee(10);
    p.add_reward(addr(STAKING), addr(ESCROW), addr(SLASHER), &pay(100)).unwrap();
    p.add_reward(addr(STAKING), addr(ESCROW), addr(SLASHER), &pay(3)).unwrap();
    let r = p.withdraw(addr(OWNER));
    assert_eq!(r, Ok(Transfer { to: addr(OWNER), amount: 13 }));
    assert_eq!(p.total_fee, 0);
    assert_eq!(p.get_rewards(&addr(ESCROW)).len(), 1);
}

#[test]
fn withdraw_by_other_refused() {
    let mut p = pool_with_fee(10);
    p.add_reward(addr(STAKING), addr(ESCROW), addr(SLASHER), &pay(100)).unwrap();
    let r = p.withdraw(addr(STAKING));
    assert_eq!(r, Err(PoolError::NotOwner));
    assert_eq!(p.total_fee, 10);
}

#[test]
fn init_twice_keeps_first_configuration() {
    let mut p = pool_with_fee(10);
    p.init(TokenId::new(b"NEW-abcdef".to_vec()), 99, addr(7));
    assert_eq!(p.get_rewards_token().as_ref().map(|t| t.bytes.clone()), Some(b"REW-123456".to_vec()));
    assert_eq!(p.get_protocol_fee(), Some(10));
    assert_eq!(p.get_staking_contract_address(), Some(addr(STAKING)));
}

#[test]
fn new_pool_has_no_configuration() {
    let p = RewardsPool::new(addr(OWNER));
    assert!(p.get_rewards_token().is_none());
    assert_eq!(p.get_protocol_fee(), None);
    assert_eq!(p.get_staking_contract_address(), None);
    assert_eq!(p.owner, addr(OWNER));
}

#[test]
fn split_deposit_parts_add_up() {
    assert_eq!(split_deposit(100, 10), (10, Some(90)));
    assert_eq!(split_deposit(5, 10), (5, None));
    assert_eq!(split_deposit(10, 10), (10, Some(0)));
    assert_eq!(split_deposit(7, 0), (0, Some(7)));
    for (amount, fee) in [(1u128, 1u128), (3, 100), (u128::MAX, 1), (u128::MAX, u128::MAX)] {
        let (taken, reward) = split_deposit(amount, fee);
        assert_eq!(taken + reward.unwrap_or(0), amount);
    }
}

#[test]
fn check_deposit_reports_first_failure() {
    let s = Some(addr(STAKING));
    let t = Some(token());
    let bad = Payment { token: TokenId::new(b"X".to_vec()), nonce: 1, amount: 0 };
    assert_eq!(check_deposit(&addr(5), &s, &t, &bad), Err(PoolError::NotStakingContract));
    assert_eq!(check_deposit(&addr(STAKING), &s, &t, &bad), Err(PoolError::InvalidToken));
    assert_eq!(check_deposit(&addr(STAKING), &s, &None, &pay(1)), Err(PoolError::InvalidToken));
    let p = Payment { token: token(), nonce: 1, amount: 0 };
    assert_eq!(check_deposit(&addr(STAKING), &s, &t, &p), Err(PoolError::InvalidTokenNonce));
    assert_eq!(check_deposit(&addr(STAKING), &s, &t, &pay(0)), Err(PoolError::ZeroAmount));
    assert_eq!(check_deposit(&addr(STAKING), &s, &t, &pay(1)), Ok(()));
}

#[test]
fn only_staking_check() {
    assert_eq!(require_only_staking(&addr(2), &Some(addr(2))), Ok(()));
    assert_eq!(require_only_staking(&addr(3), &Some(addr(2))), Err(PoolError::NotStakingContract));
    assert_eq!(require_only_staking(&addr(2), &None), Err(PoolError::NotStakingContract));
}

#[test]
fn payout_keeps_entries_apart() {
    let w1 = Reward { escrow_address: addr(ESCROW), slasher: addr(SLASHER), tokens: 90 };
    let w2 = Reward { escrow_address: addr(ESCROW), slasher: addr(SLASHER), tokens: 40 };
    assert_eq!(
        payout(&vec![w1, w2]),
        vec![Transfer { to: addr(SLASHER), amount: 90 }, Transfer { to: addr(SLASHER), amount: 40 }]
    );
    assert!(payout(&vec![]).is_empty());
}

#[test]
fn addresses_and_tokens_compare_by_bytes() {
    let mut b = [0u8; 32];
    b[31] = 1;
    assert!(addr(0) != Address::new(b));
    assert!(addr(4) == addr(4));
    assert!(token().same_as(&token()));
    assert!(!token().same_as(&TokenId::new(b"REW-12345".to_vec())));
    assert!(!token().same_as(&TokenId::new(b"REW-123457".to_vec())));
}
