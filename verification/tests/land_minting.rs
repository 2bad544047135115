use metaverse_pallets::land_minting::{Config, CurrencyOp, Dispatched, Error, Event, Pallet, PoolInfo};
use metaverse_pallets::primitives::{FungibleTokenId, Origin, StakingRound};

const NATIVE: FungibleTokenId = FungibleTokenId::NativeToken(0);
const RECEIPT: FungibleTokenId = FungibleTokenId::FungibleToken(0);
const ALICE: u64 = 1;
const POOL_ACCOUNT: u64 = 100;
const FEE_ACCOUNT: u64 = 200;

fn config() -> Config {
    Config { pool_account: POOL_ACCOUNT, network_fee_account: FEE_ACCOUNT, maximum_queue: 2 }
}

fn pallet_with_pool() -> Pallet {
    let mut p = Pallet::new(config());
    let r = p.create_pool(Origin::Signed(ALICE), NATIVE, 10, 50_000);
    assert!(r.result.is_ok());
    p
}

fn fee_transfer(currency_id: FungibleTokenId, amount: u128) -> CurrencyOp {
    CurrencyOp::Transfer { currency_id, from: ALICE, to: FEE_ACCOUNT, amount }
}

#[test]
fn staking_rounds_add_within_a_unit() {
    assert_eq!(
        Pallet::calculate_next_staking_round(StakingRound::Era(3), StakingRound::Era(4)),
        Ok(StakingRound::Era(7))
    );
    assert_eq!(
        Pallet::calculate_next_staking_round(StakingRound::Round(1), StakingRound::Round(2)),
        Ok(StakingRound::Round(3))
    );
    assert_eq!(
        Pallet::calculate_next_staking_round(StakingRound::Epoch(10), StakingRound::Epoch(0)),
        Ok(StakingRound::Epoch(10))
    );
    assert_eq!(
        Pallet::calculate_next_staking_round(StakingRound::Hour(24), StakingRound::Hour(1)),
        Ok(StakingRound::Hour(25))
    );
}

#[test]
fn staking_round_errors() {
    assert_eq!(
        Pallet::calculate_next_staking_round(StakingRound::Round(u32::MAX), StakingRound::Round(1)),
        Err(Error::ArithmeticOverflow)
    );
    assert_eq!(
        Pallet::calculate_next_staking_round(StakingRound::Era(1), StakingRound::Hour(1)),
        Err(Error::Unexpected)
    );
    assert_eq!(
        Pallet::calculate_next_staking_round(StakingRound::Hour(1), StakingRound::Epoch(1)),
        Err(Error::Unexpected)
    );
}

#[test]
fn deposit_fee_is_a_per_million_share() {
    let mut p = Pallet::new(config());
    p.set_fees(10_000, 20_000);
    assert_eq!(p.collect_deposit_fee(ALICE, NATIVE, 1000), Ok((990, fee_transfer(NATIVE, 10))));
    assert_eq!(p.collect_redeem_fee(ALICE, RECEIPT, 1000), Ok((980, fee_transfer(RECEIPT, 20))));
}

#[test]
fn fee_rounds_to_nearest_with_ties_down() {
    let mut p = Pallet::new(config());
    p.set_fees(1, 1);
    // 1.5 rounds down, 1.500001 rounds up, 0.499999 rounds down.
    assert_eq!(p.collect_deposit_fee(ALICE, NATIVE, 1_500_000).unwrap().1, fee_transfer(NATIVE, 1));
    assert_eq!(p.collect_deposit_fee(ALICE, NATIVE, 1_500_001).unwrap().1, fee_transfer(NATIVE, 2));
    assert_eq!(p.collect_redeem_fee(ALICE, NATIVE, 499_999).unwrap(), (499_999, fee_transfer(NATIVE, 0)));
    p.set_fees(500_000, 0);
    // Half of 3 is 1.5, which rounds down.
    assert_eq!(p.collect_deposit_fee(ALICE, NATIVE, 3), Ok((2, fee_transfer(NATIVE, 1))));
}

#[test]
fn fee_rate_is_capped_at_one_whole() {
    let mut p = Pallet::new(config());
    p.set_fees(2_000_000, 1_000_000);
    assert_eq!(p.collect_deposit_fee(ALICE, NATIVE, 1234), Ok((0, fee_transfer(NATIVE, 1234))));
    assert_eq!(p.collect_redeem_fee(ALICE, NATIVE, 77), Ok((0, fee_transfer(NATIVE, 77))));
}

#[test]
fn create_pool_stores_the_pool_under_the_next_id() {
    let mut p = Pallet::new(config());
    let r = p.create_pool(Origin::Signed(ALICE), NATIVE, 10, 50_000);
    assert_eq!(
        r,
        Dispatched {
            ops: vec![CurrencyOp::CollectPoolCreationFee { who: ALICE }],
            result: Ok(Event::PoolCreated(ALICE, 0, NATIVE)),
        }
    );
    assert_eq!(
        p.pool(0),
        Some(PoolInfo { creator: ALICE, commission: 50_000, currency_id: NATIVE, max: 10 })
    );
    assert_eq!(p.next_class_id(), 1);
    let r = p.create_pool(Origin::Signed(2), FungibleTokenId::NativeToken(1), 3, 0);
    assert_eq!(r.result, Ok(Event::PoolCreated(2, 1, FungibleTokenId::NativeToken(1))));
    assert_eq!(p.pool(1).unwrap().creator, 2);
    assert_eq!(p.next_class_id(), 2);
}

#[test]
fn create_pool_refusals() {
    let mut p = Pallet::new(config());
    assert_eq!(
        p.create_pool(Origin::Unsigned, NATIVE, 1, 0),
        Dispatched { ops: vec![], result: Err(Error::BadOrigin) }
    );
    assert_eq!(
        p.create_pool(Origin::Root, NATIVE, 1, 0),
        Dispatched { ops: vec![], result: Err(Error::BadOrigin) }
    );
    assert_eq!(
        p.create_pool(Origin::Signed(ALICE), FungibleTokenId::NativeToken(2), 1, 0),
        Dispatched { ops: vec![], result: Err(Error::CurrencyIsNotSupported) }
    );
    assert_eq!(
        p.create_pool(Origin::Signed(ALICE), FungibleTokenId::Stable(0), 1, 0),
        Dispatched { ops: vec![], result: Err(Error::CurrencyIsNotSupported) }
    );
    p.set_next_pool_id(u32::MAX);
    assert_eq!(
        p.create_pool(Origin::Signed(ALICE), NATIVE, 1, 0),
        Dispatched {
            ops: vec![CurrencyOp::CollectPoolCreationFee { who: ALICE }],
            result: Err(Error::NoAvailablePoolId),
        }
    );
    assert_eq!(p.next_class_id(), u32::MAX);
    assert_eq!(p.pool(u32::MAX), None);
}

#[test]
fn deposit_mints_receipts_and_moves_ledgers() {
    let mut p = pallet_with_pool();
    p.set_fees(10_000, 20_000);
    p.set_network_ledger(NATIVE, 1_000);
    let r = p.deposit(Origin::Signed(ALICE), 0, 1000, Some(RECEIPT), 2_000);
    assert_eq!(
        r,
        Dispatched {
            ops: vec![
                fee_transfer(NATIVE, 10),
                CurrencyOp::Deposit { currency_id: RECEIPT, who: ALICE, amount: 1980 },
                CurrencyOp::Transfer { currency_id: NATIVE, from: ALICE, to: POOL_ACCOUNT, amount: 1000 },
            ],
            result: Ok(Event::Deposited(ALICE, 0, 1000)),
        }
    );
    assert_eq!(p.pool_ledger(0), 990);
    assert_eq!(p.network_ledger(NATIVE), 1990);
}

#[test]
fn deposit_receipt_uses_wide_arithmetic() {
    let mut p = pallet_with_pool();
    let ledger: u128 = 1_000_000_000_000_000_000_000_000_000_000;
    let amount: u128 = 100_000_000_000_000_000_000_000_000_000_000_000;
    p.set_network_ledger(NATIVE, ledger);
    let r = p.deposit(Origin::Signed(ALICE), 0, amount, Some(RECEIPT), 3 * ledger);
    assert_eq!(r.ops[1], CurrencyOp::Deposit { currency_id: RECEIPT, who: ALICE, amount: 3 * amount });
    assert_eq!(r.result, Ok(Event::Deposited(ALICE, 0, amount)));
    // 7 * 5 / 3 rounds down to 11.
    let mut q = pallet_with_pool();
    q.set_network_ledger(NATIVE, 3);
    let r = q.deposit(Origin::Signed(ALICE), 0, 7, Some(RECEIPT), 5);
    assert_eq!(r.ops[1], CurrencyOp::Deposit { currency_id: RECEIPT, who: ALICE, amount: 11 });
}

#[test]
fn deposit_refusals() {
    let mut p = pallet_with_pool();
    p.set_fees(10_000, 0);
    assert_eq!(
        p.deposit(Origin::Unsigned, 0, 1000, Some(RECEIPT), 1),
        Dispatched { ops: vec![], result: Err(Error::BadOrigin) }
    );
    assert_eq!(
        p.deposit(Origin::Signed(ALICE), 7, 1000, Some(RECEIPT), 1),
        Dispatched { ops: vec![], result: Err(Error::PoolDoesNotExist) }
    );
    // An empty network ledger cannot price the receipt.
    assert_eq!(
        p.deposit(Origin::Signed(ALICE), 0, 1000, Some(RECEIPT), 1),
        Dispatched { ops: vec![fee_transfer(NATIVE, 10)], result: Err(Error::ArithmeticOverflow) }
    );
    p.set_network_ledger(NATIVE, 10);
    assert_eq!(
        p.deposit(Origin::Signed(ALICE), 0, 1000, None, 1),
        Dispatched { ops: vec![fee_transfer(NATIVE, 10)], result: Err(Error::CurrencyIsNotSupported) }
    );
    p.set_pool_ledger(0, u128::MAX - 100);
    let r = p.deposit(Origin::Signed(ALICE), 0, 1000, Some(RECEIPT), 10);
    assert_eq!(r.ops.len(), 2);
    assert_eq!(r.result, Err(Error::ArithmeticOverflow));
    assert_eq!(p.pool_ledger(0), u128::MAX - 100);
    assert_eq!(p.network_ledger(NATIVE), 10);
}

fn redeem_ready() -> Pallet {
    let mut p = pallet_with_pool();
    p.set_fees(0, 20_000);
    p.set_network_ledger(NATIVE, 1_000);
    p.set_pool_ledger(0, 500);
    p.set_current_staking_round(NATIVE, StakingRound::Era(5));
    p.set_unlock_duration(NATIVE, StakingRound::Era(2));
    p
}

#[test]
fn redeem_queues_an_unlock_request() {
    let mut p = redeem_ready();
    let r = p.redeem(Origin::Signed(ALICE), 0, RECEIPT, 1000, Some(NATIVE), 2_000);
    // A 2% fee of 20 goes to the fee account; the remaining 980 is burnt and
    // is worth 980 * 1000 / 2000 = 490 of the pool's currency.
    assert_eq!(
        r,
        Dispatched {
            ops: vec![
                fee_transfer(RECEIPT, 20),
                CurrencyOp::Withdraw { currency_id: RECEIPT, who: ALICE, amount: 980 },
            ],
            result: Ok(Event::Redeemed(ALICE, 0, 980)),
        }
    );
    assert_eq!(p.pool_ledger(0), 10);
    assert_eq!(p.network_ledger(NATIVE), 510);
    assert_eq!(p.user_unlock_request(NATIVE, 0), Some((ALICE, 490, StakingRound::Era(7))));
    assert_eq!(p.user_unlock_ledger(ALICE, NATIVE), Some(&(490, vec![0])));
    assert_eq!(p.network_redeem_requests(StakingRound::Era(7), NATIVE), Some(&(490, vec![0], NATIVE)));
    assert_eq!(p.queue_next_id(NATIVE), 1);
}

#[test]
fn redeem_queues_are_bounded_and_ids_advance() {
    let mut p = redeem_ready();
    p.set_pool_ledger(0, 10_000);
    // 100 redeemed at 2%: 98 burnt, worth 98 * 1000 / 1000 = 98, then 98 * 902 / 1000 = 88.
    assert!(p.redeem(Origin::Signed(ALICE), 0, RECEIPT, 100, Some(NATIVE), 1_000).result.is_ok());
    assert!(p.redeem(Origin::Signed(ALICE), 0, RECEIPT, 100, Some(NATIVE), 1_000).result.is_ok());
    assert_eq!(p.user_unlock_request(NATIVE, 0), Some((ALICE, 98, StakingRound::Era(7))));
    assert_eq!(p.user_unlock_request(NATIVE, 1), Some((ALICE, 88, StakingRound::Era(7))));
    assert_eq!(p.user_unlock_ledger(ALICE, NATIVE), Some(&(186, vec![0, 1])));
    assert_eq!(p.network_redeem_requests(StakingRound::Era(7), NATIVE), Some(&(186, vec![0, 1], NATIVE)));
    assert_eq!(p.queue_next_id(NATIVE), 2);
    let r = p.redeem(Origin::Signed(ALICE), 0, RECEIPT, 100, Some(NATIVE), 1_000);
    assert_eq!(r.result, Err(Error::TooManyRedeems));
    assert_eq!(r.ops.len(), 2);
    assert_eq!(p.pool_ledger(0), 9_814);
    assert_eq!(p.network_ledger(NATIVE), 814);
    assert_eq!(p.queue_next_id(NATIVE), 2);
    let r = p.redeem(Origin::Signed(3), 0, RECEIPT, 100, Some(NATIVE), 1_000);
    assert_eq!(r.result, Err(Error::TooManyRedeems));
    assert_eq!(p.user_unlock_ledger(3, NATIVE), None);
}

#[test]
fn later_redemptions_do_not_overwrite_earlier_requests() {
    let mut p = redeem_ready();
    p.set_pool_ledger(0, 10_000);
    assert!(p.redeem(Origin::Signed(ALICE), 0, RECEIPT, 100, Some(NATIVE), 1_000).result.is_ok());
    assert!(p.redeem(Origin::Signed(3), 0, RECEIPT, 100, Some(NATIVE), 1_000).result.is_ok());
    assert_eq!(p.user_unlock_request(NATIVE, 0), Some((ALICE, 98, StakingRound::Era(7))));
    assert_eq!(p.user_unlock_request(NATIVE, 1), Some((3, 88, StakingRound::Era(7))));
    assert_eq!(p.user_unlock_ledger(3, NATIVE), Some(&(88, vec![1])));
    p.set_queue_next_id(NATIVE, u32::MAX);
    let r = p.redeem(Origin::Signed(ALICE), 0, RECEIPT, 100, Some(NATIVE), 1_000);
    assert_eq!(r.result, Err(Error::ArithmeticOverflow));
    assert_eq!(r.ops.len(), 2);
}

#[test]
fn redeem_refusals_before_any_transfer() {
    let mut p = redeem_ready();
    p.set_minimum_redeem(RECEIPT, 100);
    let none = |e| Dispatched { ops: vec![], result: Err(e) };
    assert_eq!(p.redeem(Origin::Root, 0, RECEIPT, 1000, Some(NATIVE), 1), none(Error::BadOrigin));
    assert_eq!(
        p.redeem(Origin::Signed(ALICE), 0, RECEIPT, 99, Some(NATIVE), 1),
        none(Error::BelowMinimumRedeem)
    );
    assert_eq!(p.redeem(Origin::Signed(ALICE), 0, RECEIPT, 100, None, 1), none(Error::NotSupportTokenType));
    assert_eq!(
        p.redeem(Origin::Signed(ALICE), 9, RECEIPT, 100, Some(NATIVE), 1),
        none(Error::PoolDoesNotExist)
    );
    assert_eq!(
        p.redeem(Origin::Signed(ALICE), 0, RECEIPT, 100, Some(FungibleTokenId::NativeToken(1)), 1),
        none(Error::CurrencyIsNotSupported)
    );
}

#[test]
fn redeem_refusals_after_the_fee() {
    let mut p = redeem_ready();
    let after_fee = |e| Dispatched { ops: vec![fee_transfer(RECEIPT, 20)], result: Err(e) };
    assert_eq!(
        p.redeem(Origin::Signed(ALICE), 0, RECEIPT, 1000, Some(NATIVE), 0),
        after_fee(Error::ArithmeticOverflow)
    );
    p.set_unlock_duration(NATIVE, StakingRound::Hour(2));
    assert_eq!(
        p.redeem(Origin::Signed(ALICE), 0, RECEIPT, 1000, Some(NATIVE), 2_000),
        after_fee(Error::Unexpected)
    );
    let mut q = pallet_with_pool();
    q.set_fees(0, 20_000);
    assert_eq!(
        q.redeem(Origin::Signed(ALICE), 0, RECEIPT, 1000, Some(NATIVE), 2_000),
        after_fee(Error::NoCurrentStakingRound)
    );
    q.set_current_staking_round(NATIVE, StakingRound::Era(1));
    assert_eq!(
        q.redeem(Origin::Signed(ALICE), 0, RECEIPT, 1000, Some(NATIVE), 2_000),
        after_fee(Error::UnlockDurationNotFound)
    );
    q.set_unlock_duration(NATIVE, StakingRound::Era(1));
    q.set_network_ledger(NATIVE, 1_000);
    // The pool ledger is empty: the currency amount cannot be taken off it.
    let r = q.redeem(Origin::Signed(ALICE), 0, RECEIPT, 1000, Some(NATIVE), 2_000);
    assert_eq!(r.ops.len(), 2);
    assert_eq!(r.result, Err(Error::ArithmeticOverflow));
    assert_eq!(q.user_unlock_request(NATIVE, 0), None);
}

#[test]
fn getters_of_a_new_pallet() {
    let p = Pallet::new(config());
    assert_eq!(p.config(), config());
    assert_eq!(p.next_class_id(), 0);
    assert_eq!(p.fees(), (0, 0));
    assert_eq!(p.pool(0), None);
    assert_eq!(p.pool_ledger(0), 0);
    assert_eq!(p.network_ledger(NATIVE), 0);
    assert_eq!(p.minimum_redeem(NATIVE), 0);
    assert_eq!(p.unlock_duration(NATIVE), None);
    assert_eq!(p.current_staking_round(NATIVE), None);
    assert_eq!(p.queue_next_id(NATIVE), 0);
}

#[test]
fn staking_round_sum_does_not_depend_on_order() {
    let pairs = [
        (StakingRound::Era(3), StakingRound::Era(9)),
        (StakingRound::Hour(u32::MAX), StakingRound::Hour(2)),
        (StakingRound::Round(1), StakingRound::Epoch(1)),
    ];
    for (a, b) in pairs {
        assert_eq!(
            Pallet::calculate_next_staking_round(a, b),
            Pallet::calculate_next_staking_round(b, a)
        );
    }
}

#[test]
fn zero_rate_takes_no_fee() {
    let p = Pallet::new(config());
    assert_eq!(p.collect_deposit_fee(ALICE, NATIVE, u128::MAX), Ok((u128::MAX, fee_transfer(NATIVE, 0))));
    assert_eq!(p.collect_redeem_fee(ALICE, NATIVE, 0), Ok((0, fee_transfer(NATIVE, 0))));
}

#[test]
fn redeem_cannot_take_more_than_the_network_ledger() {
    let mut p = redeem_ready();
    p.set_network_ledger(NATIVE, 100);
    p.set_pool_ledger(0, 10_000);
    // 980 burnt against an issuance of 10 is worth 98 times the network ledger.
    let r = p.redeem(Origin::Signed(ALICE), 0, RECEIPT, 1000, Some(NATIVE), 10);
    assert_eq!(r.ops.len(), 2);
    assert_eq!(r.result, Err(Error::ArithmeticOverflow));
    assert_eq!(p.pool_ledger(0), 10_000);
    assert_eq!(p.network_ledger(NATIVE), 100);
}

#[test]
fn network_ledger_is_the_sum_of_its_pools() {
    let mut p = Pallet::new(config());
    p.set_fees(10_000, 20_000);
    p.set_current_staking_round(NATIVE, StakingRound::Era(1));
    p.set_unlock_duration(NATIVE, StakingRound::Era(1));
    let native1 = FungibleTokenId::NativeToken(1);
    for currency in [NATIVE, native1, NATIVE] {
        assert!(p.create_pool(Origin::Signed(ALICE), currency, 1, 0).result.is_ok());
    }
    // Seed pool 0 and the network ledger together so the receipt can be priced.
    p.set_pool_ledger(0, 1_000);
    p.set_network_ledger(NATIVE, 1_000);
    assert!(p.deposit(Origin::Signed(ALICE), 2, 500, Some(RECEIPT), 1_000).result.is_ok());
    assert!(p.deposit(Origin::Signed(ALICE), 0, 300, Some(RECEIPT), 1_000).result.is_ok());
    assert_eq!(p.network_ledger(NATIVE), p.pool_ledger(0) + p.pool_ledger(2));
    assert!(p.redeem(Origin::Signed(ALICE), 2, RECEIPT, 1000, Some(NATIVE), 10_000).result.is_ok());
    assert!(p.pool_ledger(2) < 495);
    assert_eq!(p.network_ledger(NATIVE), p.pool_ledger(0) + p.pool_ledger(2));
    assert_eq!(p.network_ledger(native1), p.pool_ledger(1));
    assert_eq!(p.pool_ledger(1), 0);
}
