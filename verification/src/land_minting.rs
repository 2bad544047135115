//! The land-minting staking pool pallet: users create pools for a native
//! currency, deposit into a pool against a fee (receiving a receipt amount
//! in proportion to the network's ledger), and redeem receipt tokens into
//! unlock requests queued for a later staking round.
//!
//! Currency movements happen in the runtime's currency pallets. A call here
//! returns the currency operations in the order the pallet performs them
//! together with the call's outcome: the runtime carries the operations out
//! in that order inside the call's storage transaction, the first one that
//! fails aborts the call with its own error, and otherwise the call ends
//! with the outcome. The pallet's state changes only on success.

use vstd::prelude::*;
use crate::arith::{
    PERMILL_ACCURACY, lemma_permill_mul_le, mul_div, mul_div_fits, permill_mul_spec, permill_of,
};
use crate::keyed_map::KeyedMap;
use crate::primitives::{
    AccountId, Balance, FungibleTokenId, Origin, PoolId, QueueId, StakingRound, ensure_signed,
    signer_of,
};

verus! {

/// The constants the runtime configures the pallet with.
#[derive(Clone, Copy, Debug, PartialEq, Eq, Structural)]
pub struct Config {
    /// The account that holds the pooled currency.
    pub pool_account: AccountId,
    /// The account that receives deposit and redeem fees.
    pub network_fee_account: AccountId,
    /// The most unlock requests a user, or a staking round, may queue per currency.
    pub maximum_queue: u32,
}

/// A staking pool.
#[derive(Clone, Copy, Debug, PartialEq, Eq, Structural)]
pub struct PoolInfo {
    pub creator: AccountId,
    /// The creator's commission, in parts per million (at most one million).
    pub commission: u32,
    pub currency_id: FungibleTokenId,
    pub max: u32,
}

/// Why a call was refused.
#[derive(Clone, Copy, Debug, PartialEq, Eq, Structural)]
pub enum Error {
    /// The origin is not a signed account.
    BadOrigin,
    NoPermission,
    /// The currency cannot be staked in a pool, or does not match the pool's.
    CurrencyIsNotSupported,
    /// The receipt currency has no underlying currency.
    NotSupportTokenType,
    /// Every pool id has been used.
    NoAvailablePoolId,
    PoolDoesNotExist,
    Overflow,
    /// An amount computation overflowed, or divided by a zero total.
    ArithmeticOverflow,
    BelowMinimumRedeem,
    NoCurrentStakingRound,
    /// The currency has no unlock duration.
    UnlockDurationNotFound,
    /// Two staking rounds of different units were added.
    Unexpected,
    /// An unlock queue is full.
    TooManyRedeems,
}

/// What the pallet reports after a successful call.
#[derive(Clone, Copy, Debug, PartialEq, Eq, Structural)]
pub enum Event {
    /// A new staking round started: starting block, round, total land units.
    NewRound(u32, u32, u64),
    /// A pool was created: creator, the new pool's id, currency.
    PoolCreated(AccountId, PoolId, FungibleTokenId),
    /// A deposit into a pool: depositor, pool, amount.
    Deposited(AccountId, PoolId, Balance),
    /// A redemption from a pool: redeemer, pool, receipt amount burnt.
    Redeemed(AccountId, PoolId, Balance),
}

/// A currency operation the runtime carries out for the pallet.
#[derive(Clone, Copy, Debug, PartialEq, Eq, Structural)]
pub enum CurrencyOp {
    /// Charge `who` the runtime's pool creation fee.
    CollectPoolCreationFee { who: AccountId },
    /// Move `amount` of `currency_id` from `from` to `to`.
    Transfer { currency_id: FungibleTokenId, from: AccountId, to: AccountId, amount: Balance },
    /// Mint `amount` of `currency_id` to `who`.
    Deposit { currency_id: FungibleTokenId, who: AccountId, amount: Balance },
    /// Burn `amount` of `currency_id` from `who`.
    Withdraw { currency_id: FungibleTokenId, who: AccountId, amount: Balance },
}

/// The currency operations of a call, in order, and its outcome.
#[derive(Debug, PartialEq, Eq)]
pub struct Dispatched {
    pub ops: Vec<CurrencyOp>,
    pub result: Result<Event, Error>,
}

/// An unlock queue of a staking round and currency: the total queued, the
/// queued request ids, and the currency.
pub type RedeemQueue = (Balance, Vec<QueueId>, FungibleTokenId);

/// A user's unlock requests in one currency: the total queued and the ids.
pub type UserRedeems = (Balance, Vec<QueueId>);

/// The abstract state of the pallet.
#[verifier::ext_equal]
pub struct LandMintingView {
    pub config: Config,
    pub next_pool_id: PoolId,
    /// Deposit and redeem fee rates, in parts per million.
    pub fees: (u32, u32),
    pub pools: Map<PoolId, PoolInfo>,
    pub pool_ledger: Map<PoolId, Balance>,
    pub network_ledger: Map<FungibleTokenId, Balance>,
    pub minimum_redeem: Map<FungibleTokenId, Balance>,
    pub network_redeem_queue: Map<
        (StakingRound, FungibleTokenId),
        (Balance, Seq<QueueId>, FungibleTokenId),
    >,
    pub user_unlock_request: Map<(FungibleTokenId, QueueId), (AccountId, Balance, StakingRound)>,
    pub user_unlock_ledger: Map<(AccountId, FungibleTokenId), (Balance, Seq<QueueId>)>,
    pub unlock_duration: Map<FungibleTokenId, StakingRound>,
    pub current_staking_round: Map<FungibleTokenId, StakingRound>,
    pub queue_next_id: Map<FungibleTokenId, u32>,
}

/// The value stored at `k`, or zero for an absent key.
pub open spec fn value_or_zero<K>(m: Map<K, Balance>, k: K) -> Balance {
    if m.contains_key(k) { m[k] } else { 0 }
}

/// The queue id stored at `k`, or zero for an absent key.
pub open spec fn id_or_zero<K>(m: Map<K, u32>, k: K) -> u32 {
    if m.contains_key(k) { m[k] } else { 0 }
}

impl LandMintingView {
    /// Every unlock queue holds at most `maximum_queue` requests.
    pub open spec fn queues_bounded(self) -> bool {
        &&& forall|k: (StakingRound, FungibleTokenId)| #[trigger]
            self.network_redeem_queue.contains_key(k) ==> self.network_redeem_queue[k].1.len()
                <= self.config.maximum_queue
        &&& forall|k: (AccountId, FungibleTokenId)| #[trigger]
            self.user_unlock_ledger.contains_key(k) ==> self.user_unlock_ledger[k].1.len()
                <= self.config.maximum_queue
    }
}

impl LandMintingView {
    /// Every pool's commission is at most one whole (one million parts).
    pub open spec fn commissions_valid(self) -> bool {
        forall|id: PoolId| #[trigger]
            self.pools.contains_key(id) ==> self.pools[id].commission <= PERMILL_ACCURACY
    }
}

/// Pools can be created for the native tokens 0 and 1 only.
pub open spec fn is_pool_currency(currency_id: FungibleTokenId) -> bool {
    currency_id == FungibleTokenId::NativeToken(0) || currency_id == FungibleTokenId::NativeToken(1)
}

/// The sum of two staking rounds of the same unit; adding rounds of
/// different units is unexpected.
pub open spec fn next_staking_round_spec(a: StakingRound, b: StakingRound) -> Result<
    StakingRound,
    Error,
> {
    match (a, b) {
        (StakingRound::Era(x), StakingRound::Era(y)) => if x + y > u32::MAX {
            Err(Error::ArithmeticOverflow)
        } else {
            Ok(StakingRound::Era((x + y) as u32))
        },
        (StakingRound::Round(x), StakingRound::Round(y)) => if x + y > u32::MAX {
            Err(Error::ArithmeticOverflow)
        } else {
            Ok(StakingRound::Round((x + y) as u32))
        },
        (StakingRound::Epoch(x), StakingRound::Epoch(y)) => if x + y > u32::MAX {
            Err(Error::ArithmeticOverflow)
        } else {
            Ok(StakingRound::Epoch((x + y) as u32))
        },
        (StakingRound::Hour(x), StakingRound::Hour(y)) => if x + y > u32::MAX {
            Err(Error::ArithmeticOverflow)
        } else {
            Ok(StakingRound::Hour((x + y) as u32))
        },
        _ => Err(Error::Unexpected),
    }
}

/// The fee a per-million `rate` takes of `amount`.
pub open spec fn fee_of(rate: u32, amount: Balance) -> Balance {
    permill_mul_spec(rate, amount) as Balance
}

/// `create_pool`: the new state, the currency operations and the outcome.
pub open spec fn create_pool_spec(
    s: LandMintingView,
    origin: Origin,
    currency_id: FungibleTokenId,
    max_nft_reward: u32,
    commission: u32,
) -> (LandMintingView, Seq<CurrencyOp>, Result<Event, Error>) {
    match signer_of(origin) {
        None => (s, seq![], Err(Error::BadOrigin)),
        Some(who) => if !is_pool_currency(currency_id) {
            (s, seq![], Err(Error::CurrencyIsNotSupported))
        } else {
            let ops = seq![CurrencyOp::CollectPoolCreationFee { who }];
            if s.next_pool_id == u32::MAX {
                (s, ops, Err(Error::NoAvailablePoolId))
            } else {
                let pool = PoolInfo { creator: who, commission, currency_id, max: max_nft_reward };
                (
                    LandMintingView {
                        next_pool_id: (s.next_pool_id + 1) as u32,
                        pools: s.pools.insert(s.next_pool_id, pool),
                        ..s
                    },
                    ops,
                    Ok(Event::PoolCreated(who, s.next_pool_id, currency_id)),
                )
            }
        },
    }
}

/// The receipt amount a deposit of `amount_after_fee` is worth when `issuance`
/// receipt tokens stand against `ledger` staked.
pub open spec fn receipt_amount(amount_after_fee: Balance, issuance: Balance, ledger: Balance) -> Balance {
    ((amount_after_fee * issuance) / (ledger as int)) as Balance
}

/// The deposit's receipt computation does not overflow a balance, on the
/// inputs where the call reaches it.
pub open spec fn deposit_fits(
    s: LandMintingView,
    origin: Origin,
    pool_id: PoolId,
    amount: Balance,
    v_currency_id: Option<FungibleTokenId>,
    v_total_issuance: Balance,
) -> bool {
    (signer_of(origin) is Some && s.pools.contains_key(pool_id) && v_currency_id is Some) ==> {
        let currency_id = s.pools[pool_id].currency_id;
        let ledger = value_or_zero(s.network_ledger, currency_id);
        let after_fee = (amount - fee_of(s.fees.0, amount)) as Balance;
        mul_div_fits(after_fee, v_total_issuance, ledger)
    }
}

/// `deposit`: the new state, the currency operations and the outcome.
pub open spec fn deposit_spec(
    s: LandMintingView,
    origin: Origin,
    pool_id: PoolId,
    amount: Balance,
    v_currency_id: Option<FungibleTokenId>,
    v_total_issuance: Balance,
) -> (LandMintingView, Seq<CurrencyOp>, Result<Event, Error>) {
    match signer_of(origin) {
        None => (s, seq![], Err(Error::BadOrigin)),
        Some(who) => if !s.pools.contains_key(pool_id) {
            (s, seq![], Err(Error::PoolDoesNotExist))
        } else {
            let currency_id = s.pools[pool_id].currency_id;
            let ledger = value_or_zero(s.network_ledger, currency_id);
            let fee = fee_of(s.fees.0, amount);
            let after_fee = (amount - fee) as Balance;
            let ops1 = seq![
                CurrencyOp::Transfer {
                    currency_id,
                    from: who,
                    to: s.config.network_fee_account,
                    amount: fee,
                },
            ];
            if v_currency_id is None {
                (s, ops1, Err(Error::CurrencyIsNotSupported))
            } else if ledger == 0 {
                (s, ops1, Err(Error::ArithmeticOverflow))
            } else {
                let v_amount = receipt_amount(after_fee, v_total_issuance, ledger);
                let ops2 = ops1.push(
                    CurrencyOp::Deposit { currency_id: v_currency_id->0, who, amount: v_amount },
                );
                let pool_balance = value_or_zero(s.pool_ledger, pool_id);
                if pool_balance + after_fee > u128::MAX || ledger + after_fee > u128::MAX {
                    (s, ops2, Err(Error::ArithmeticOverflow))
                } else {
                    let ops3 = ops2.push(
                        CurrencyOp::Transfer {
                            currency_id,
                            from: who,
                            to: s.config.pool_account,
                            amount,
                        },
                    );
                    (
                        LandMintingView {
                            pool_ledger: s.pool_ledger.insert(
                                pool_id,
                                (pool_balance + after_fee) as Balance,
                            ),
                            network_ledger: s.network_ledger.insert(
                                currency_id,
                                (ledger + after_fee) as Balance,
                            ),
                            ..s
                        },
                        ops3,
                        Ok(Event::Deposited(who, pool_id, amount)),
                    )
                }
            }
        },
    }
}

/// The checks of `redeem` that come before its currency amount computation pass.
pub open spec fn redeem_reaches_amount(
    s: LandMintingView,
    origin: Origin,
    pool_id: PoolId,
    vcurrency_id: FungibleTokenId,
    vamount: Balance,
    currency_id: Option<FungibleTokenId>,
) -> bool {
    &&& signer_of(origin) is Some
    &&& vamount >= value_or_zero(s.minimum_redeem, vcurrency_id)
    &&& currency_id is Some
    &&& s.pools.contains_key(pool_id)
    &&& currency_id->0 == s.pools[pool_id].currency_id
}

/// The receipt amount that a redemption of `vamount` burns: what remains of
/// `vamount` after the redeem fee.
pub open spec fn redeem_burn(s: LandMintingView, vamount: Balance) -> Balance {
    (vamount - fee_of(s.fees.1, vamount)) as Balance
}

/// The redemption's currency amount computation does not overflow a
/// balance, on the inputs where the call reaches it.
pub open spec fn redeem_fits(
    s: LandMintingView,
    origin: Origin,
    pool_id: PoolId,
    vcurrency_id: FungibleTokenId,
    vamount: Balance,
    currency_id: Option<FungibleTokenId>,
    v_total_issuance: Balance,
) -> bool {
    redeem_reaches_amount(s, origin, pool_id, vcurrency_id, vamount, currency_id) ==> mul_div_fits(
        redeem_burn(s, vamount),
        value_or_zero(s.network_ledger, currency_id->0),
        v_total_issuance,
    )
}

/// The unlock queue entry of a user after `queue_id` for `amount` is added.
pub open spec fn user_entry_after(
    s: LandMintingView,
    key: (AccountId, FungibleTokenId),
    queue_id: QueueId,
    amount: Balance,
) -> (Balance, Seq<QueueId>) {
    if s.user_unlock_ledger.contains_key(key) {
        let (total, ids) = s.user_unlock_ledger[key];
        ((total + amount) as Balance, ids.push(queue_id))
    } else {
        (amount, seq![queue_id])
    }
}

/// The unlock queue entry of a round after `queue_id` for `amount` is added.
pub open spec fn round_entry_after(
    s: LandMintingView,
    key: (StakingRound, FungibleTokenId),
    queue_id: QueueId,
    amount: Balance,
) -> (Balance, Seq<QueueId>, FungibleTokenId) {
    if s.network_redeem_queue.contains_key(key) {
        let (total, ids, token) = s.network_redeem_queue[key];
        ((total + amount) as Balance, ids.push(queue_id), token)
    } else {
        (amount, seq![queue_id], key.1)
    }
}

/// Whether adding `amount` under `queue_id` to a queue entry fails, and how.
pub open spec fn queue_add_error(
    exists: bool,
    total: Balance,
    len: nat,
    amount: Balance,
    maximum_queue: u32,
) -> Option<Error> {
    if exists {
        if len >= maximum_queue {
            Some(Error::TooManyRedeems)
        } else if total + amount > u128::MAX {
            Some(Error::ArithmeticOverflow)
        } else {
            None
        }
    } else if maximum_queue == 0 {
        Some(Error::TooManyRedeems)
    } else {
        None
    }
}

/// `redeem`: the new state, the currency operations and the outcome.
pub open spec fn redeem_spec(
    s: LandMintingView,
    origin: Origin,
    pool_id: PoolId,
    vcurrency_id: FungibleTokenId,
    vamount: Balance,
    currency_id: Option<FungibleTokenId>,
    v_total_issuance: Balance,
) -> (LandMintingView, Seq<CurrencyOp>, Result<Event, Error>) {
    match signer_of(origin) {
        None => (s, seq![], Err(Error::BadOrigin)),
        Some(who) => if vamount < value_or_zero(s.minimum_redeem, vcurrency_id) {
            (s, seq![], Err(Error::BelowMinimumRedeem))
        } else if currency_id is None {
            (s, seq![], Err(Error::NotSupportTokenType))
        } else if !s.pools.contains_key(pool_id) {
            (s, seq![], Err(Error::PoolDoesNotExist))
        } else if currency_id->0 != s.pools[pool_id].currency_id {
            (s, seq![], Err(Error::CurrencyIsNotSupported))
        } else {
            let currency = currency_id->0;
            let ledger = value_or_zero(s.network_ledger, currency);
            let fee = fee_of(s.fees.1, vamount);
            let ops1 = seq![
                CurrencyOp::Transfer {
                    currency_id: vcurrency_id,
                    from: who,
                    to: s.config.network_fee_account,
                    amount: fee,
                },
            ];
            let burn = redeem_burn(s, vamount);
            if v_total_issuance == 0 {
                (s, ops1, Err(Error::ArithmeticOverflow))
            } else if !s.current_staking_round.contains_key(currency) {
                (s, ops1, Err(Error::NoCurrentStakingRound))
            } else if !s.unlock_duration.contains_key(currency) {
                (s, ops1, Err(Error::UnlockDurationNotFound))
            } else {
                let amount = receipt_amount(burn, ledger, v_total_issuance);
                let round = s.current_staking_round[currency];
                match next_staking_round_spec(s.unlock_duration[currency], round) {
                    Err(e) => (s, ops1, Err(e)),
                    Ok(new_round) => {
                        let ops2 = ops1.push(
                            CurrencyOp::Withdraw { currency_id: vcurrency_id, who, amount: burn },
                        );
                        let pool_balance = value_or_zero(s.pool_ledger, pool_id);
                        let queue_id = id_or_zero(s.queue_next_id, currency);
                        let user_key = (who, currency);
                        let round_key = (new_round, currency);
                        let user_err = queue_add_error(
                            s.user_unlock_ledger.contains_key(user_key),
                            s.user_unlock_ledger[user_key].0,
                            s.user_unlock_ledger[user_key].1.len(),
                            amount,
                            s.config.maximum_queue,
                        );
                        let round_err = queue_add_error(
                            s.network_redeem_queue.contains_key(round_key),
                            s.network_redeem_queue[round_key].0,
                            s.network_redeem_queue[round_key].1.len(),
                            amount,
                            s.config.maximum_queue,
                        );
                        if pool_balance < amount || ledger < amount || queue_id == u32::MAX {
                            (s, ops2, Err(Error::ArithmeticOverflow))
                        } else if user_err is Some {
                            (s, ops2, Err(user_err->0))
                        } else if round_err is Some {
                            (s, ops2, Err(round_err->0))
                        } else {
                            (
                                LandMintingView {
                                    pool_ledger: s.pool_ledger.insert(
                                        pool_id,
                                        (pool_balance - amount) as Balance,
                                    ),
                                    network_ledger: s.network_ledger.insert(
                                        currency,
                                        (ledger - amount) as Balance,
                                    ),
                                    user_unlock_request: s.user_unlock_request.insert(
                                        (currency, queue_id),
                                        (who, amount, new_round),
                                    ),
                                    queue_next_id: s.queue_next_id.insert(
                                        currency,
                                        (queue_id + 1) as u32,
                                    ),
                                    user_unlock_ledger: s.user_unlock_ledger.insert(
                                        user_key,
                                        user_entry_after(s, user_key, queue_id, amount),
                                    ),
                                    network_redeem_queue: s.network_redeem_queue.insert(
                                        round_key,
                                        round_entry_after(s, round_key, queue_id, amount),
                                    ),
                                    ..s
                                },
                                ops2,
                                Ok(Event::Redeemed(who, pool_id, burn)),
                            )
                        }
                    },
                }
            }
        },
    }
}

/// The view of a round's unlock queue entry.
pub open spec fn round_queue_view(v: RedeemQueue) -> (Balance, Seq<QueueId>, FungibleTokenId) {
    (v.0, v.1@, v.2)
}

/// The view of a user's unlock queue entry.
pub open spec fn user_redeems_view(v: UserRedeems) -> (Balance, Seq<QueueId>) {
    (v.0, v.1@)
}

/// The rounds' unlock queues, each entry seen through its view.
pub open spec fn round_queues_view(
    m: Map<(StakingRound, FungibleTokenId), RedeemQueue>,
) -> Map<(StakingRound, FungibleTokenId), (Balance, Seq<QueueId>, FungibleTokenId)> {
    Map::new(
        |k: (StakingRound, FungibleTokenId)| m.contains_key(k),
        |k: (StakingRound, FungibleTokenId)| round_queue_view(m[k]),
    )
}

/// The users' unlock queues, each entry seen through its view.
pub open spec fn user_redeems_map_view(m: Map<(AccountId, FungibleTokenId), UserRedeems>) -> Map<
    (AccountId, FungibleTokenId),
    (Balance, Seq<QueueId>),
> {
    Map::new(
        |k: (AccountId, FungibleTokenId)| m.contains_key(k),
        |k: (AccountId, FungibleTokenId)| user_redeems_view(m[k]),
    )
}

proof fn lemma_round_queues_replace(
    m: Map<(StakingRound, FungibleTokenId), RedeemQueue>,
    k: (StakingRound, FungibleTokenId),
    v: RedeemQueue,
)
    ensures
        round_queues_view(m.remove(k).insert(k, v)) == round_queues_view(m).insert(
            k,
            round_queue_view(v),
        ),
{
    assert(round_queues_view(m.remove(k).insert(k, v)) =~= round_queues_view(m).insert(
        k,
        round_queue_view(v),
    ));
}

proof fn lemma_user_redeems_replace(
    m: Map<(AccountId, FungibleTokenId), UserRedeems>,
    k: (AccountId, FungibleTokenId),
    v: UserRedeems,
)
    ensures
        user_redeems_map_view(m.remove(k).insert(k, v)) == user_redeems_map_view(m).insert(
            k,
            user_redeems_view(v),
        ),
{
    assert(user_redeems_map_view(m.remove(k).insert(k, v)) =~= user_redeems_map_view(m).insert(
        k,
        user_redeems_view(v),
    ));
}

/// The stored balance at `k`, zero when absent.
fn balance_or_zero<K: crate::keyed_map::MapKey>(m: &KeyedMap<K, Balance>, k: &K) -> (r: Balance)
    ensures
        r == value_or_zero(m@, k.key_view()),
{
    match m.get(k) {
        Some(v) => *v,
        None => 0,
    }
}

/// The land-minting pallet's state.
pub struct Pallet {
    config: Config,
    next_pool_id: PoolId,
    fees: (u32, u32),
    pools: KeyedMap<PoolId, PoolInfo>,
    pool_ledger: KeyedMap<PoolId, Balance>,
    network_ledger: KeyedMap<FungibleTokenId, Balance>,
    minimum_redeem: KeyedMap<FungibleTokenId, Balance>,
    network_redeem_queue: KeyedMap<(StakingRound, FungibleTokenId), RedeemQueue>,
    user_unlock_request: KeyedMap<(FungibleTokenId, QueueId), (AccountId, Balance, StakingRound)>,
    user_unlock_ledger: KeyedMap<(AccountId, FungibleTokenId), UserRedeems>,
    unlock_duration: KeyedMap<FungibleTokenId, StakingRound>,
    current_staking_round: KeyedMap<FungibleTokenId, StakingRound>,
    queue_next_id: KeyedMap<FungibleTokenId, u32>,
}

impl Clone for Pallet {
    /// A copy of the pallet's state, with every storage map cloned.
    fn clone(&self) -> (r: Self) {
        Pallet {
            config: self.config,
            next_pool_id: self.next_pool_id,
            fees: self.fees,
            pools: self.pools.clone(),
            pool_ledger: self.pool_ledger.clone(),
            network_ledger: self.network_ledger.clone(),
            minimum_redeem: self.minimum_redeem.clone(),
            network_redeem_queue: self.network_redeem_queue.clone(),
            user_unlock_request: self.user_unlock_request.clone(),
            user_unlock_ledger: self.user_unlock_ledger.clone(),
            unlock_duration: self.unlock_duration.clone(),
            current_staking_round: self.current_staking_round.clone(),
            queue_next_id: self.queue_next_id.clone(),
        }
    }
}

impl View for Pallet {
    type V = LandMintingView;

    closed spec fn view(&self) -> LandMintingView {
        LandMintingView {
            config: self.config,
            next_pool_id: self.next_pool_id,
            fees: self.fees,
            pools: self.pools@,
            pool_ledger: self.pool_ledger@,
            network_ledger: self.network_ledger@,
            minimum_redeem: self.minimum_redeem@,
            network_redeem_queue: round_queues_view(self.network_redeem_queue@),
            user_unlock_request: self.user_unlock_request@,
            user_unlock_ledger: user_redeems_map_view(self.user_unlock_ledger@),
            unlock_duration: self.unlock_duration@,
            current_staking_round: self.current_staking_round@,
            queue_next_id: self.queue_next_id@,
        }
    }
}

impl Pallet {
    /// A pallet with the given constants and empty storage.
    pub fn new(config: Config) -> (p: Pallet)
        ensures
            p@.config == config,
            p@.next_pool_id == 0,
            p@.fees == (0u32, 0u32),
            p@.pools == Map::<PoolId, PoolInfo>::empty(),
            p@.pool_ledger == Map::<PoolId, Balance>::empty(),
            p@.network_ledger == Map::<FungibleTokenId, Balance>::empty(),
            p@.minimum_redeem == Map::<FungibleTokenId, Balance>::empty(),
            p@.network_redeem_queue == Map::<
                (StakingRound, FungibleTokenId),
                (Balance, Seq<QueueId>, FungibleTokenId),
            >::empty(),
            p@.user_unlock_request == Map::<
                (FungibleTokenId, QueueId),
                (AccountId, Balance, StakingRound),
            >::empty(),
            p@.user_unlock_ledger == Map::<
                (AccountId, FungibleTokenId),
                (Balance, Seq<QueueId>),
            >::empty(),
            p@.unlock_duration == Map::<FungibleTokenId, StakingRound>::empty(),
            p@.current_staking_round == Map::<FungibleTokenId, StakingRound>::empty(),
            p@.queue_next_id == Map::<FungibleTokenId, u32>::empty(),
            p@.queues_bounded(),
            p@.commissions_valid(),
            ledgers_consistent(p@),
            pool_ids_below_next(p@),
            unlock_ids_below_next(p@),
    {
        let p = Pallet {
            config,
            next_pool_id: 0,
            fees: (0, 0),
            pools: KeyedMap::new(),
            pool_ledger: KeyedMap::new(),
            network_ledger: KeyedMap::new(),
            minimum_redeem: KeyedMap::new(),
            network_redeem_queue: KeyedMap::new(),
            user_unlock_request: KeyedMap::new(),
            user_unlock_ledger: KeyedMap::new(),
            unlock_duration: KeyedMap::new(),
            current_staking_round: KeyedMap::new(),
            queue_next_id: KeyedMap::new(),
        };
        assert(p@.network_redeem_queue =~= Map::<
            (StakingRound, FungibleTokenId),
            (Balance, Seq<QueueId>, FungibleTokenId),
        >::empty());
        assert(p@.user_unlock_ledger =~= Map::<
            (AccountId, FungibleTokenId),
            (Balance, Seq<QueueId>),
        >::empty());
        proof {
            law_empty_ledgers_are_consistent(p@);
        }
        p
    }

    /// The sum of two staking rounds of the same unit: `Unexpected` for
    /// rounds of different units, an arithmetic overflow when the sum does
    /// not fit.
    pub fn calculate_next_staking_round(a: StakingRound, b: StakingRound) -> (r: Result<
        StakingRound,
        Error,
    >)
        ensures
            r == next_staking_round_spec(a, b),
    {
        match (a, b) {
            (StakingRound::Era(era_a), StakingRound::Era(era_b)) => match era_a.checked_add(era_b) {
                Some(v) => Ok(StakingRound::Era(v)),
                None => Err(Error::ArithmeticOverflow),
            },
            (StakingRound::Round(round_a), StakingRound::Round(round_b)) => match round_a.checked_add(
                round_b,
            ) {
                Some(v) => Ok(StakingRound::Round(v)),
                None => Err(Error::ArithmeticOverflow),
            },
            (StakingRound::Epoch(epoch_a), StakingRound::Epoch(epoch_b)) => match epoch_a.checked_add(
                epoch_b,
            ) {
                Some(v) => Ok(StakingRound::Epoch(v)),
                None => Err(Error::ArithmeticOverflow),
            },
            (StakingRound::Hour(hour_a), StakingRound::Hour(hour_b)) => match hour_a.checked_add(
                hour_b,
            ) {
                Some(v) => Ok(StakingRound::Hour(v)),
                None => Err(Error::ArithmeticOverflow),
            },
            _ => Err(Error::Unexpected),
        }
    }

    /// The deposit fee on `amount`: returns what remains of `amount` after
    /// the fee and the transfer of the fee from `who` to the network fee
    /// account. Never fails: the fee never exceeds the amount.
    pub fn collect_deposit_fee(&self, who: AccountId, currency_id: FungibleTokenId, amount: Balance) -> (r:
        Result<(Balance, CurrencyOp), Error>)
        ensures
            r == Ok::<(Balance, CurrencyOp), Error>(
                (
                    (amount - fee_of(self@.fees.0, amount)) as Balance,
                    CurrencyOp::Transfer {
                        currency_id,
                        from: who,
                        to: self@.config.network_fee_account,
                        amount: fee_of(self@.fees.0, amount),
                    },
                ),
            ),
            fee_of(self@.fees.0, amount) <= amount,
    {
        let (deposit_rate, _redeem_rate) = self.fees;
        let deposit_fee = permill_of(deposit_rate, amount);
        let amount_exclude_fee = match amount.checked_sub(deposit_fee) {
            Some(v) => v,
            None => {
                return Err(Error::ArithmeticOverflow);
            },
        };
        Ok(
            (
                amount_exclude_fee,
                CurrencyOp::Transfer {
                    currency_id,
                    from: who,
                    to: self.config.network_fee_account,
                    amount: deposit_fee,
                },
            ),
        )
    }

    /// The redeem fee on `amount`: returns what remains of `amount` after
    /// the fee and the transfer of the fee from `who` to the network fee
    /// account. Never fails: the fee never exceeds the amount.
    pub fn collect_redeem_fee(&self, who: AccountId, currency_id: FungibleTokenId, amount: Balance) -> (r:
        Result<(Balance, CurrencyOp), Error>)
        ensures
            r == Ok::<(Balance, CurrencyOp), Error>(
                (
                    (amount - fee_of(self@.fees.1, amount)) as Balance,
                    CurrencyOp::Transfer {
                        currency_id,
                        from: who,
                        to: self@.config.network_fee_account,
                        amount: fee_of(self@.fees.1, amount),
                    },
                ),
            ),
            fee_of(self@.fees.1, amount) <= amount,
    {
        let (_mint_rate, redeem_rate) = self.fees;
        let redeem_fee = permill_of(redeem_rate, amount);
        let amount_exclude_fee = match amount.checked_sub(redeem_fee) {
            Some(v) => v,
            None => {
                return Err(Error::ArithmeticOverflow);
            },
        };
        Ok(
            (
                amount_exclude_fee,
                CurrencyOp::Transfer {
                    currency_id,
                    from: who,
                    to: self.config.network_fee_account,
                    amount: redeem_fee,
                },
            ),
        )
    }

    /// Creates a pool for `currency_id` owned by the signer, under the next
    /// pool id, after the pool creation fee is collected. `commission` is the
    /// parts of a per-million fraction, so at most one million.
    pub fn create_pool(
        &mut self,
        origin: Origin,
        currency_id: FungibleTokenId,
        max_nft_reward: u32,
        commission: u32,
    ) -> (r: Dispatched)
        requires
            commission <= PERMILL_ACCURACY,
        ensures
            (final(self)@, r.ops@, r.result) == create_pool_spec(
                old(self)@,
                origin,
                currency_id,
                max_nft_reward,
                commission,
            ),
            r.result is Ok ==> currency_id == FungibleTokenId::NativeToken(0) || currency_id
                == FungibleTokenId::NativeToken(1),
            old(self)@.queues_bounded() ==> final(self)@.queues_bounded(),
            old(self)@.commissions_valid() ==> final(self)@.commissions_valid(),
            pool_ids_below_next(old(self)@) ==> pool_ids_below_next(final(self)@),
            ledgers_consistent(old(self)@) && pool_ids_below_next(old(self)@) ==> ledgers_consistent(
                final(self)@,
            ),
    {
        proof {
            if pool_ids_below_next(old(self)@) {
                law_create_pool_allocates_next_id(
                    old(self)@,
                    origin,
                    currency_id,
                    max_nft_reward,
                    commission,
                );
                if ledgers_consistent(old(self)@) {
                    law_create_pool_keeps_ledgers_consistent(
                        old(self)@,
                        origin,
                        currency_id,
                        max_nft_reward,
                        commission,
                    );
                }
            }
        }
        let mut ops: Vec<CurrencyOp> = Vec::new();
        let who = match ensure_signed(origin) {
            Some(who) => who,
            None => {
                return Dispatched { ops, result: Err(Error::BadOrigin) };
            },
        };
        if !(currency_id == FungibleTokenId::NativeToken(0) || currency_id
            == FungibleTokenId::NativeToken(1)) {
            return Dispatched { ops, result: Err(Error::CurrencyIsNotSupported) };
        }
        ops.push(CurrencyOp::CollectPoolCreationFee { who });
        let current_id = self.next_pool_id;
        let next_id = match current_id.checked_add(1) {
            Some(v) => v,
            None => {
                return Dispatched { ops, result: Err(Error::NoAvailablePoolId) };
            },
        };
        let new_pool = PoolInfo { creator: who, commission, currency_id, max: max_nft_reward };
        self.next_pool_id = next_id;
        self.pools.insert(current_id, new_pool);
        assert(self@.network_redeem_queue == old(self)@.network_redeem_queue);
        assert(self@.user_unlock_ledger == old(self)@.user_unlock_ledger);
        Dispatched { ops, result: Ok(Event::PoolCreated(who, current_id, currency_id)) }
    }

    /// Deposits `amount` of the pool's currency: takes the deposit fee,
    /// mints the receipt amount (the amount after fee in proportion of the
    /// receipt currency's issuance to the network ledger), adds the amount
    /// after fee to the pool and network ledgers and moves `amount` to the
    /// pool account. `v_currency_id` is the receipt currency the runtime
    /// maps the pool currency to, and `v_total_issuance` that currency's
    /// total issuance.
    pub fn deposit(
        &mut self,
        origin: Origin,
        pool_id: PoolId,
        amount: Balance,
        v_currency_id: Option<FungibleTokenId>,
        v_total_issuance: Balance,
    ) -> (r: Dispatched)
        requires
            deposit_fits(old(self)@, origin, pool_id, amount, v_currency_id, v_total_issuance),
        ensures
            (final(self)@, r.ops@, r.result) == deposit_spec(
                old(self)@,
                origin,
                pool_id,
                amount,
                v_currency_id,
                v_total_issuance,
            ),
            old(self)@.queues_bounded() ==> final(self)@.queues_bounded(),
            network_matches_pools(old(self)@) ==> network_matches_pools(final(self)@),
            ledgers_consistent(old(self)@) ==> ledgers_consistent(final(self)@),
            final(self)@.pools == old(self)@.pools,
            final(self)@.next_pool_id == old(self)@.next_pool_id,
    {
        proof {
            {
                law_deposit_keeps_ledgers_consistent(
                    old(self)@,
                    origin,
                    pool_id,
                    amount,
                    v_currency_id,
                    v_total_issuance,
                );
            }
        }
        let mut ops: Vec<CurrencyOp> = Vec::new();
        let who = match ensure_signed(origin) {
            Some(who) => who,
            None => {
                return Dispatched { ops, result: Err(Error::BadOrigin) };
            },
        };
        let currency_id = match self.pools.get(&pool_id) {
            Some(pool) => pool.currency_id,
            None => {
                return Dispatched { ops, result: Err(Error::PoolDoesNotExist) };
            },
        };
        let network_ledger_balance = balance_or_zero(&self.network_ledger, &currency_id);
        let (amount_after_fee, fee_transfer) = match self.collect_deposit_fee(
            who,
            currency_id,
            amount,
        ) {
            Ok(v) => v,
            Err(e) => {
                return Dispatched { ops, result: Err(e) };
            },
        };
        ops.push(fee_transfer);
        let v_currency = match v_currency_id {
            Some(v) => v,
            None => {
                return Dispatched { ops, result: Err(Error::CurrencyIsNotSupported) };
            },
        };
        let v_amount = match mul_div(amount_after_fee, v_total_issuance, network_ledger_balance) {
            Some(v) => v,
            None => {
                return Dispatched { ops, result: Err(Error::ArithmeticOverflow) };
            },
        };
        ops.push(CurrencyOp::Deposit { currency_id: v_currency, who, amount: v_amount });
        let pool_balance = balance_or_zero(&self.pool_ledger, &pool_id);
        let new_pool_balance = match pool_balance.checked_add(amount_after_fee) {
            Some(v) => v,
            None => {
                return Dispatched { ops, result: Err(Error::ArithmeticOverflow) };
            },
        };
        let new_network_balance = match network_ledger_balance.checked_add(amount_after_fee) {
            Some(v) => v,
            None => {
                return Dispatched { ops, result: Err(Error::ArithmeticOverflow) };
            },
        };
        ops.push(
            CurrencyOp::Transfer {
                currency_id,
                from: who,
                to: self.config.pool_account,
                amount,
            },
        );
        self.pool_ledger.insert(pool_id, new_pool_balance);
        self.network_ledger.insert(currency_id, new_network_balance);
        Dispatched { ops, result: Ok(Event::Deposited(who, pool_id, amount)) }
    }

    /// Redeems `vamount` of the receipt currency `vcurrency_id` from a pool
    /// whose currency is `currency_id` (the runtime's underlying currency of
    /// `vcurrency_id`): takes the redeem fee, burns what remains of `vamount`,
    /// takes its currency amount (in proportion of the network ledger to the
    /// receipt currency's total issuance `v_total_issuance`) off the pool
    /// ledger and the network ledger, and files an unlock request under the
    /// currency's next queue id (which then advances by one) for the
    /// currency's current staking round plus its unlock duration, for the
    /// user and for that round.
    pub fn redeem(
        &mut self,
        origin: Origin,
        pool_id: PoolId,
        vcurrency_id: FungibleTokenId,
        vamount: Balance,
        currency_id: Option<FungibleTokenId>,
        v_total_issuance: Balance,
    ) -> (r: Dispatched)
        requires
            redeem_fits(
                old(self)@,
                origin,
                pool_id,
                vcurrency_id,
                vamount,
                currency_id,
                v_total_issuance,
            ),
        ensures
            (final(self)@, r.ops@, r.result) == redeem_spec(
                old(self)@,
                origin,
                pool_id,
                vcurrency_id,
                vamount,
                currency_id,
                v_total_issuance,
            ),
            old(self)@.queues_bounded() ==> final(self)@.queues_bounded(),
            network_matches_pools(old(self)@) ==> network_matches_pools(final(self)@),
            ledgers_consistent(old(self)@) ==> ledgers_consistent(final(self)@),
            final(self)@.pools == old(self)@.pools,
            final(self)@.next_pool_id == old(self)@.next_pool_id,
            unlock_ids_below_next(old(self)@) ==> unlock_ids_below_next(final(self)@),
    {
        proof {
            if unlock_ids_below_next(old(self)@) {
                law_redeem_files_under_fresh_id(
                    old(self)@,
                    origin,
                    pool_id,
                    vcurrency_id,
                    vamount,
                    currency_id,
                    v_total_issuance,
                );
            }
            {
                law_redeem_keeps_ledgers_consistent(
                    old(self)@,
                    origin,
                    pool_id,
                    vcurrency_id,
                    vamount,
                    currency_id,
                    v_total_issuance,
                );
            }
        }
        let mut ops: Vec<CurrencyOp> = Vec::new();
        let who = match ensure_signed(origin) {
            Some(who) => who,
            None => {
                return Dispatched { ops, result: Err(Error::BadOrigin) };
            },
        };
        if vamount < balance_or_zero(&self.minimum_redeem, &vcurrency_id) {
            return Dispatched { ops, result: Err(Error::BelowMinimumRedeem) };
        }
        let currency = match currency_id {
            Some(c) => c,
            None => {
                return Dispatched { ops, result: Err(Error::NotSupportTokenType) };
            },
        };
        let pool_currency = match self.pools.get(&pool_id) {
            Some(pool) => pool.currency_id,
            None => {
                return Dispatched { ops, result: Err(Error::PoolDoesNotExist) };
            },
        };
        if currency != pool_currency {
            return Dispatched { ops, result: Err(Error::CurrencyIsNotSupported) };
        }
        let network_ledger_balance = balance_or_zero(&self.network_ledger, &currency);
        let (amount_after_fee, fee_transfer) = match self.collect_redeem_fee(
            who,
            vcurrency_id,
            vamount,
        ) {
            Ok(v) => v,
            Err(e) => {
                return Dispatched { ops, result: Err(e) };
            },
        };
        ops.push(fee_transfer);
        let burn = amount_after_fee;
        let currency_amount = match mul_div(burn, network_ledger_balance, v_total_issuance) {
            Some(v) => v,
            None => {
                return Dispatched { ops, result: Err(Error::ArithmeticOverflow) };
            },
        };
        let staking_round = match self.current_staking_round.get(&currency) {
            Some(round) => *round,
            None => {
                return Dispatched { ops, result: Err(Error::NoCurrentStakingRound) };
            },
        };
        let duration = match self.unlock_duration.get(&currency) {
            Some(d) => *d,
            None => {
                return Dispatched { ops, result: Err(Error::UnlockDurationNotFound) };
            },
        };
        let new_round = match Self::calculate_next_staking_round(duration, staking_round) {
            Ok(round) => round,
            Err(e) => {
                return Dispatched { ops, result: Err(e) };
            },
        };
        ops.push(CurrencyOp::Withdraw { currency_id: vcurrency_id, who, amount: burn });
        let pool_balance = balance_or_zero(&self.pool_ledger, &pool_id);
        let new_pool_balance = match pool_balance.checked_sub(currency_amount) {
            Some(v) => v,
            None => {
                return Dispatched { ops, result: Err(Error::ArithmeticOverflow) };
            },
        };
        let new_network_balance = match network_ledger_balance.checked_sub(currency_amount) {
            Some(v) => v,
            None => {
                return Dispatched { ops, result: Err(Error::ArithmeticOverflow) };
            },
        };
        let queue_id: QueueId = match self.queue_next_id.get(&currency) {
            Some(id) => *id,
            None => 0,
        };
        let next_queue_id = match queue_id.checked_add(1) {
            Some(v) => v,
            None => {
                return Dispatched { ops, result: Err(Error::ArithmeticOverflow) };
            },
        };
        let maximum_queue = self.config.maximum_queue;
        let user_key = (who, currency);
        let user_total: Balance = match self.user_unlock_ledger.get(&user_key) {
            Some(entry) => {
                if entry.1.len() >= maximum_queue as usize {
                    return Dispatched { ops, result: Err(Error::TooManyRedeems) };
                }
                match entry.0.checked_add(currency_amount) {
                    Some(v) => v,
                    None => {
                        return Dispatched { ops, result: Err(Error::ArithmeticOverflow) };
                    },
                }
            },
            None => {
                if maximum_queue == 0 {
                    return Dispatched { ops, result: Err(Error::TooManyRedeems) };
                }
                currency_amount
            },
        };
        let round_key = (new_round, currency);
        let round_total: Balance = match self.network_redeem_queue.get(&round_key) {
            Some(entry) => {
                if entry.1.len() >= maximum_queue as usize {
                    return Dispatched { ops, result: Err(Error::TooManyRedeems) };
                }
                match entry.0.checked_add(currency_amount) {
                    Some(v) => v,
                    None => {
                        return Dispatched { ops, result: Err(Error::ArithmeticOverflow) };
                    },
                }
            },
            None => {
                if maximum_queue == 0 {
                    return Dispatched { ops, result: Err(Error::TooManyRedeems) };
                }
                currency_amount
            },
        };
        let ghost user_map = self.user_unlock_ledger@;
        let ghost round_map = self.network_redeem_queue@;
        self.pool_ledger.insert(pool_id, new_pool_balance);
        self.network_ledger.insert(currency, new_network_balance);
        self.user_unlock_request.insert((currency, queue_id), (who, currency_amount, new_round));
        self.queue_next_id.insert(currency, next_queue_id);
        let user_entry: UserRedeems = match self.user_unlock_ledger.remove(&user_key) {
            Some((_, mut ids)) => {
                ids.push(queue_id);
                (user_total, ids)
            },
            None => {
                let mut ids: Vec<QueueId> = Vec::new();
                ids.push(queue_id);
                (user_total, ids)
            },
        };
        assert(user_redeems_view(user_entry) == user_entry_after(
            old(self)@,
            (who, currency),
            queue_id,
            currency_amount,
        ));
        self.user_unlock_ledger.insert(user_key, user_entry);
        proof {
            lemma_user_redeems_replace(user_map, (who, currency), user_entry);
        }
        let round_entry: RedeemQueue = match self.network_redeem_queue.remove(&round_key) {
            Some((_, mut ids, token)) => {
                ids.push(queue_id);
                (round_total, ids, token)
            },
            None => {
                let mut ids: Vec<QueueId> = Vec::new();
                ids.push(queue_id);
                (round_total, ids, currency)
            },
        };
        assert(round_queue_view(round_entry) == round_entry_after(
            old(self)@,
            (new_round, currency),
            queue_id,
            currency_amount,
        ));
        self.network_redeem_queue.insert(round_key, round_entry);
        proof {
            lemma_round_queues_replace(round_map, (new_round, currency), round_entry);
        }
        Dispatched { ops, result: Ok(Event::Redeemed(who, pool_id, burn)) }
    }

    /// The constants the pallet was configured with.
    pub fn config(&self) -> (r: Config)
        ensures
            r == self@.config,
    {
        self.config
    }

    /// The id the next pool will get.
    pub fn next_class_id(&self) -> (r: PoolId)
        ensures
            r == self@.next_pool_id,
    {
        self.next_pool_id
    }

    /// The deposit and redeem fee rates, in parts per million.
    pub fn fees(&self) -> (r: (u32, u32))
        ensures
            r == self@.fees,
    {
        self.fees
    }

    /// The pool with id `pool_id`, if there is one.
    pub fn pool(&self, pool_id: PoolId) -> (r: Option<PoolInfo>)
        ensures
            r == (if self@.pools.contains_key(pool_id) {
                Some(self@.pools[pool_id])
            } else {
                None
            }),
    {
        match self.pools.get(&pool_id) {
            Some(p) => Some(*p),
            None => None,
        }
    }

    /// The balance staked through pool `pool_id`.
    pub fn pool_ledger(&self, pool_id: PoolId) -> (r: Balance)
        ensures
            r == value_or_zero(self@.pool_ledger, pool_id),
    {
        balance_or_zero(&self.pool_ledger, &pool_id)
    }

    /// The balance of `currency_id` staked across all pools.
    pub fn network_ledger(&self, currency_id: FungibleTokenId) -> (r: Balance)
        ensures
            r == value_or_zero(self@.network_ledger, currency_id),
    {
        balance_or_zero(&self.network_ledger, &currency_id)
    }

    /// The least receipt amount of `currency_id` that can be redeemed.
    pub fn minimum_redeem(&self, currency_id: FungibleTokenId) -> (r: Balance)
        ensures
            r == value_or_zero(self@.minimum_redeem, currency_id),
    {
        balance_or_zero(&self.minimum_redeem, &currency_id)
    }

    /// The unlock queue of `currency_id` for staking round `round`.
    pub fn network_redeem_requests(&self, round: StakingRound, currency_id: FungibleTokenId) -> (r:
        Option<&RedeemQueue>)
        ensures
            r is Some <==> self@.network_redeem_queue.contains_key((round, currency_id)),
            r matches Some(q) ==> round_queue_view(*q) == self@.network_redeem_queue[(
                round,
                currency_id,
            )],
    {
        self.network_redeem_queue.get(&(round, currency_id))
    }

    /// The unlock request `queue_id` of `currency_id`: requester, currency
    /// amount and the staking round it unlocks at.
    pub fn user_unlock_request(&self, currency_id: FungibleTokenId, queue_id: QueueId) -> (r:
        Option<(AccountId, Balance, StakingRound)>)
        ensures
            r == (if self@.user_unlock_request.contains_key((currency_id, queue_id)) {
                Some(self@.user_unlock_request[(currency_id, queue_id)])
            } else {
                None
            }),
    {
        match self.user_unlock_request.get(&(currency_id, queue_id)) {
            Some(v) => Some(*v),
            None => None,
        }
    }

    /// The unlock requests of `who` in `currency_id`: the total and the ids.
    pub fn user_unlock_ledger(&self, who: AccountId, currency_id: FungibleTokenId) -> (r: Option<
        &UserRedeems,
    >)
        ensures
            r is Some <==> self@.user_unlock_ledger.contains_key((who, currency_id)),
            r matches Some(q) ==> user_redeems_view(*q) == self@.user_unlock_ledger[(
                who,
                currency_id,
            )],
    {
        self.user_unlock_ledger.get(&(who, currency_id))
    }

    /// How long an unlock of `currency_id` takes.
    pub fn unlock_duration(&self, currency_id: FungibleTokenId) -> (r: Option<StakingRound>)
        ensures
            r == (if self@.unlock_duration.contains_key(currency_id) {
                Some(self@.unlock_duration[currency_id])
            } else {
                None
            }),
    {
        match self.unlock_duration.get(&currency_id) {
            Some(v) => Some(*v),
            None => None,
        }
    }

    /// The current staking round of `currency_id`.
    pub fn current_staking_round(&self, currency_id: FungibleTokenId) -> (r: Option<StakingRound>)
        ensures
            r == (if self@.current_staking_round.contains_key(currency_id) {
                Some(self@.current_staking_round[currency_id])
            } else {
                None
            }),
    {
        match self.current_staking_round.get(&currency_id) {
            Some(v) => Some(*v),
            None => None,
        }
    }

    /// The id the next unlock request of `currency_id` is filed under.
    pub fn queue_next_id(&self, currency_id: FungibleTokenId) -> (r: u32)
        ensures
            r == id_or_zero(self@.queue_next_id, currency_id),
    {
        match self.queue_next_id.get(&currency_id) {
            Some(v) => *v,
            None => 0,
        }
    }

    /// Stores the id the next pool will get.
    pub fn set_next_pool_id(&mut self, pool_id: PoolId)
        ensures
            final(self)@ == (LandMintingView { next_pool_id: pool_id, ..old(self)@ }),
    {
        self.next_pool_id = pool_id;
    }

    /// Stores the deposit and redeem fee rates, in parts per million.
    pub fn set_fees(&mut self, deposit_rate: u32, redeem_rate: u32)
        ensures
            final(self)@ == (LandMintingView { fees: (deposit_rate, redeem_rate), ..old(self)@ }),
    {
        self.fees = (deposit_rate, redeem_rate);
    }

    /// Stores the least redeemable receipt amount of `currency_id`.
    pub fn set_minimum_redeem(&mut self, currency_id: FungibleTokenId, amount: Balance)
        ensures
            final(self)@ == (LandMintingView {
                minimum_redeem: old(self)@.minimum_redeem.insert(currency_id, amount),
                ..old(self)@
            }),
    {
        self.minimum_redeem.insert(currency_id, amount);
    }

    /// Stores the unlock duration of `currency_id`.
    pub fn set_unlock_duration(&mut self, currency_id: FungibleTokenId, duration: StakingRound)
        ensures
            final(self)@ == (LandMintingView {
                unlock_duration: old(self)@.unlock_duration.insert(currency_id, duration),
                ..old(self)@
            }),
    {
        self.unlock_duration.insert(currency_id, duration);
    }

    /// Stores the current staking round of `currency_id`.
    pub fn set_current_staking_round(&mut self, currency_id: FungibleTokenId, round: StakingRound)
        ensures
            final(self)@ == (LandMintingView {
                current_staking_round: old(self)@.current_staking_round.insert(currency_id, round),
                ..old(self)@
            }),
    {
        self.current_staking_round.insert(currency_id, round);
    }

    /// Stores the balance of `currency_id` staked across all pools.
    pub fn set_network_ledger(&mut self, currency_id: FungibleTokenId, balance: Balance)
        ensures
            final(self)@ == (LandMintingView {
                network_ledger: old(self)@.network_ledger.insert(currency_id, balance),
                ..old(self)@
            }),
    {
        self.network_ledger.insert(currency_id, balance);
    }

    /// Stores the balance staked through pool `pool_id`.
    pub fn set_pool_ledger(&mut self, pool_id: PoolId, balance: Balance)
        ensures
            final(self)@ == (LandMintingView {
                pool_ledger: old(self)@.pool_ledger.insert(pool_id, balance),
                ..old(self)@
            }),
    {
        self.pool_ledger.insert(pool_id, balance);
    }

    /// Stores the id the next unlock request of `currency_id` is filed under.
    pub fn set_queue_next_id(&mut self, currency_id: FungibleTokenId, queue_id: QueueId)
        ensures
            final(self)@ == (LandMintingView {
                queue_next_id: old(self)@.queue_next_id.insert(currency_id, queue_id),
                ..old(self)@
            }),
    {
        self.queue_next_id.insert(currency_id, queue_id);
    }
}

/// Every pool id is below the id the next pool will get.
pub open spec fn pool_ids_below_next(s: LandMintingView) -> bool {
    forall|id: PoolId| #[trigger] s.pools.contains_key(id) ==> id < s.next_pool_id
}

/// The fee a rate takes of an amount never exceeds the amount, so what
/// remains after the fee is never negative.
pub proof fn law_fee_never_exceeds_amount(rate: u32, amount: Balance)
    ensures
        fee_of(rate, amount) <= amount,
{
    lemma_permill_mul_le(rate, amount);
}

/// A zero rate takes no fee, and a full rate (one million parts or more)
/// takes the whole amount.
pub proof fn law_fee_extremes(amount: Balance)
    ensures
        fee_of(0, amount) == 0,
        fee_of(1_000_000, amount) == amount,
{
    let m = 1_000_000int;
    let x = amount as int;
    assert(x * 0 == 0);
    assert((x * m) / m == x) by (nonlinear_arith)
        requires m == 1_000_000;
    assert((x * m) % m == 0) by (nonlinear_arith)
        requires m == 1_000_000;
}

/// Adding staking rounds does not depend on the order of the operands.
pub proof fn law_staking_round_sum_commutes(a: StakingRound, b: StakingRound)
    ensures
        next_staking_round_spec(a, b) == next_staking_round_spec(b, a),
{
}

/// Staking rounds add only within one unit, and the sum keeps that unit.
pub proof fn law_staking_round_units_must_match(a: StakingRound, b: StakingRound)
    ensures
        next_staking_round_spec(a, b) matches Ok(c) ==> match (a, b, c) {
            (StakingRound::Era(x), StakingRound::Era(y), StakingRound::Era(z)) => z == x + y,
            (StakingRound::Round(x), StakingRound::Round(y), StakingRound::Round(z)) => z == x + y,
            (StakingRound::Epoch(x), StakingRound::Epoch(y), StakingRound::Epoch(z)) => z == x + y,
            (StakingRound::Hour(x), StakingRound::Hour(y), StakingRound::Hour(z)) => z == x + y,
            _ => false,
        },
{
}

/// A refused `create_pool` leaves the pallet's state as it was.
pub proof fn law_create_pool_refusal_keeps_state(
    s: LandMintingView,
    origin: Origin,
    currency_id: FungibleTokenId,
    max_nft_reward: u32,
    commission: u32,
)
    ensures
        create_pool_spec(s, origin, currency_id, max_nft_reward, commission).2 is Err
            ==> create_pool_spec(s, origin, currency_id, max_nft_reward, commission).0 == s,
{
}

/// A refused `deposit` leaves the pallet's state as it was.
pub proof fn law_deposit_refusal_keeps_state(
    s: LandMintingView,
    origin: Origin,
    pool_id: PoolId,
    amount: Balance,
    v_currency_id: Option<FungibleTokenId>,
    v_total_issuance: Balance,
)
    ensures
        deposit_spec(s, origin, pool_id, amount, v_currency_id, v_total_issuance).2 is Err
            ==> deposit_spec(s, origin, pool_id, amount, v_currency_id, v_total_issuance).0 == s,
{
}

/// A refused `redeem` leaves the pallet's state as it was.
pub proof fn law_redeem_refusal_keeps_state(
    s: LandMintingView,
    origin: Origin,
    pool_id: PoolId,
    vcurrency_id: FungibleTokenId,
    vamount: Balance,
    currency_id: Option<FungibleTokenId>,
    v_total_issuance: Balance,
)
    ensures
        redeem_spec(s, origin, pool_id, vcurrency_id, vamount, currency_id, v_total_issuance).2 is Err
            ==> redeem_spec(
            s,
            origin,
            pool_id,
            vcurrency_id,
            vamount,
            currency_id,
            v_total_issuance,
        ).0 == s,
{
}

/// A created pool is stored under the previous next pool id, owned by the
/// signer, and the next pool id moves on by one; pool ids stay below it.
pub proof fn law_create_pool_allocates_next_id(
    s: LandMintingView,
    origin: Origin,
    currency_id: FungibleTokenId,
    max_nft_reward: u32,
    commission: u32,
)
    requires
        pool_ids_below_next(s),
    ensures
        ({
            let (t, ops, result) = create_pool_spec(
                s,
                origin,
                currency_id,
                max_nft_reward,
                commission,
            );
            &&& pool_ids_below_next(t)
            &&& result is Ok ==> {
                &&& t.next_pool_id == s.next_pool_id + 1
                &&& !s.pools.contains_key(s.next_pool_id)
                &&& t.pools[s.next_pool_id].creator == signer_of(origin)->0
                &&& t.pools[s.next_pool_id].currency_id == currency_id
                &&& result == Ok::<Event, Error>(
                    Event::PoolCreated(signer_of(origin)->0, s.next_pool_id, currency_id),
                )
            }
        }),
{
}

/// A deposit adds the same amount, the deposit less its fee, to the pool's
/// ledger and to the network ledger of the pool's currency; the fee goes to
/// the network fee account, the receipt amount is minted in the receipt
/// currency, and the whole deposit goes to the pool account.
pub proof fn law_deposit_moves_ledgers_together(
    s: LandMintingView,
    origin: Origin,
    pool_id: PoolId,
    amount: Balance,
    v_currency_id: Option<FungibleTokenId>,
    v_total_issuance: Balance,
)
    ensures
        ({
            let (t, ops, result) = deposit_spec(
                s,
                origin,
                pool_id,
                amount,
                v_currency_id,
                v_total_issuance,
            );
            let currency_id = s.pools[pool_id].currency_id;
            let fee = fee_of(s.fees.0, amount);
            result is Ok ==> {
                &&& t.pool_ledger[pool_id] == value_or_zero(s.pool_ledger, pool_id) + amount - fee
                &&& t.network_ledger[currency_id] == value_or_zero(s.network_ledger, currency_id)
                    + amount - fee
                &&& ops[0] == CurrencyOp::Transfer {
                    currency_id,
                    from: signer_of(origin)->0,
                    to: s.config.network_fee_account,
                    amount: fee,
                }
                &&& ops[1] == CurrencyOp::Deposit {
                    currency_id: v_currency_id->0,
                    who: signer_of(origin)->0,
                    amount: receipt_amount(
                        (amount - fee) as Balance,
                        v_total_issuance,
                        value_or_zero(s.network_ledger, currency_id),
                    ),
                }
                &&& ops.last() == CurrencyOp::Transfer {
                    currency_id,
                    from: signer_of(origin)->0,
                    to: s.config.pool_account,
                    amount,
                }
            }
        }),
{
    lemma_permill_mul_le(s.fees.0, amount);
}

/// A redemption files its unlock request under the currency's next queue
/// id, appends that id to the redeemer's queue and to the queue of the
/// round it unlocks at, and takes its currency amount off the pool ledger and the network ledger.
pub proof fn law_redeem_files_unlock_request(
    s: LandMintingView,
    origin: Origin,
    pool_id: PoolId,
    vcurrency_id: FungibleTokenId,
    vamount: Balance,
    currency_id: Option<FungibleTokenId>,
    v_total_issuance: Balance,
)
    ensures
        ({
            let (t, ops, result) = redeem_spec(
                s,
                origin,
                pool_id,
                vcurrency_id,
                vamount,
                currency_id,
                v_total_issuance,
            );
            let who = signer_of(origin)->0;
            let currency = currency_id->0;
            let queue_id = id_or_zero(s.queue_next_id, currency);
            result is Ok ==> {
                let (requester, amount, round) = t.user_unlock_request[(currency, queue_id)];
                &&& requester == who
                &&& t.pool_ledger[pool_id] == value_or_zero(s.pool_ledger, pool_id) - amount
                &&& t.network_ledger[currency] == value_or_zero(s.network_ledger, currency) - amount
                &&& t.queue_next_id[currency] == queue_id + 1
                &&& t.user_unlock_ledger[(who, currency)].1.last() == queue_id
                &&& t.network_redeem_queue[(round, currency)].1.last() == queue_id
                &&& next_staking_round_spec(
                    s.unlock_duration[currency],
                    s.current_staking_round[currency],
                ) == Ok::<StakingRound, Error>(round)
            }
        }),
{
}

/// A redemption keeps each unlock queue within the configured maximum.
pub proof fn law_redeem_keeps_queues_bounded(
    s: LandMintingView,
    origin: Origin,
    pool_id: PoolId,
    vcurrency_id: FungibleTokenId,
    vamount: Balance,
    currency_id: Option<FungibleTokenId>,
    v_total_issuance: Balance,
)
    requires
        s.queues_bounded(),
    ensures
        redeem_spec(
            s,
            origin,
            pool_id,
            vcurrency_id,
            vamount,
            currency_id,
            v_total_issuance,
        ).0.queues_bounded(),
{
}

/// The ledger of pool `id` when it is a pool of currency `c`, otherwise zero.
pub open spec fn pool_share(
    pools: Map<PoolId, PoolInfo>,
    pool_ledger: Map<PoolId, Balance>,
    c: FungibleTokenId,
    id: PoolId,
) -> int {
    if pools.contains_key(id) && pools[id].currency_id == c {
        value_or_zero(pool_ledger, id) as int
    } else {
        0
    }
}

/// The sum of the ledgers of the pools of currency `c` whose id is below `n`.
pub open spec fn currency_pool_sum(
    pools: Map<PoolId, PoolInfo>,
    pool_ledger: Map<PoolId, Balance>,
    c: FungibleTokenId,
    n: nat,
) -> int
    decreases n,
{
    if n == 0 {
        0
    } else {
        currency_pool_sum(pools, pool_ledger, c, (n - 1) as nat) + pool_share(
            pools,
            pool_ledger,
            c,
            (n - 1) as PoolId,
        )
    }
}

/// The sum of the ledgers of all pools of currency `c` (every pool id is
/// below 2^32).
pub open spec fn all_pools_sum(
    pools: Map<PoolId, PoolInfo>,
    pool_ledger: Map<PoolId, Balance>,
    c: FungibleTokenId,
) -> int {
    currency_pool_sum(pools, pool_ledger, c, 0x1_0000_0000nat)
}

/// The network ledger of every currency is the sum of the ledgers of that
/// currency's pools.
pub open spec fn network_matches_pools(s: LandMintingView) -> bool {
    forall|c: FungibleTokenId| #[trigger]
        value_or_zero(s.network_ledger, c) == all_pools_sum(s.pools, s.pool_ledger, c)
}

/// Only pools have a ledger.
pub open spec fn only_pools_have_ledgers(s: LandMintingView) -> bool {
    forall|id: PoolId| !s.pools.contains_key(id) ==> #[trigger] value_or_zero(s.pool_ledger, id) == 0
}

/// The network ledgers match the pools, and only pools have a ledger (so a
/// new pool starts with an empty ledger).
pub open spec fn ledgers_consistent(s: LandMintingView) -> bool {
    network_matches_pools(s) && only_pools_have_ledgers(s)
}

proof fn lemma_sum_after_ledger_update(
    pools: Map<PoolId, PoolInfo>,
    pool_ledger: Map<PoolId, Balance>,
    c: FungibleTokenId,
    n: nat,
    p: PoolId,
    v: Balance,
)
    requires
        n <= 0x1_0000_0000,
    ensures
        currency_pool_sum(pools, pool_ledger.insert(p, v), c, n) == currency_pool_sum(
            pools,
            pool_ledger,
            c,
            n,
        ) + (if p < n && pools.contains_key(p) && pools[p].currency_id == c {
            v - value_or_zero(pool_ledger, p)
        } else {
            0
        }),
    decreases n,
{
    if n > 0 {
        lemma_sum_after_ledger_update(pools, pool_ledger, c, (n - 1) as nat, p, v);
        let id = (n - 1) as PoolId;
        if id != p {
            assert(value_or_zero(pool_ledger.insert(p, v), id) == value_or_zero(pool_ledger, id));
        } else {
            assert(value_or_zero(pool_ledger.insert(p, v), id) == v);
        }
    }
}

proof fn lemma_sum_after_pool_insert(
    pools: Map<PoolId, PoolInfo>,
    pool_ledger: Map<PoolId, Balance>,
    c: FungibleTokenId,
    n: nat,
    id: PoolId,
    info: PoolInfo,
)
    requires
        n <= 0x1_0000_0000,
    ensures
        currency_pool_sum(pools.insert(id, info), pool_ledger, c, n) == currency_pool_sum(
            pools,
            pool_ledger,
            c,
            n,
        ) + (if id < n {
            pool_share(pools.insert(id, info), pool_ledger, c, id) - pool_share(
                pools,
                pool_ledger,
                c,
                id,
            )
        } else {
            0
        }),
    decreases n,
{
    if n > 0 {
        lemma_sum_after_pool_insert(pools, pool_ledger, c, (n - 1) as nat, id, info);
    }
}

/// A pallet with no pools and no stored ledgers has consistent ledgers.
pub proof fn law_empty_ledgers_are_consistent(s: LandMintingView)
    requires
        s.pools == Map::<PoolId, PoolInfo>::empty(),
        s.pool_ledger == Map::<PoolId, Balance>::empty(),
        s.network_ledger == Map::<FungibleTokenId, Balance>::empty(),
    ensures
        ledgers_consistent(s),
{
    assert forall|c: FungibleTokenId| #[trigger] value_or_zero(s.network_ledger, c)
        == all_pools_sum(s.pools, s.pool_ledger, c) by {
        lemma_empty_pools_sum(s.pool_ledger, c, 0x1_0000_0000nat);
    }
}

proof fn lemma_empty_pools_sum(pool_ledger: Map<PoolId, Balance>, c: FungibleTokenId, n: nat)
    ensures
        currency_pool_sum(Map::<PoolId, PoolInfo>::empty(), pool_ledger, c, n) == 0,
    decreases n,
{
    if n > 0 {
        lemma_empty_pools_sum(pool_ledger, c, (n - 1) as nat);
    }
}

/// Creating a pool keeps every network ledger equal to the sum of the
/// ledgers of its currency's pools (the new pool starts with an empty
/// ledger, as only pools have one).
pub proof fn law_create_pool_keeps_ledgers_consistent(
    s: LandMintingView,
    origin: Origin,
    currency_id: FungibleTokenId,
    max_nft_reward: u32,
    commission: u32,
)
    requires
        ledgers_consistent(s),
        pool_ids_below_next(s),
    ensures
        ledgers_consistent(create_pool_spec(s, origin, currency_id, max_nft_reward, commission).0),
{
    let t = create_pool_spec(s, origin, currency_id, max_nft_reward, commission).0;
    if create_pool_spec(s, origin, currency_id, max_nft_reward, commission).2 is Ok {
        let id = s.next_pool_id;
        let pool = t.pools[id];
        assert(t.pools == s.pools.insert(id, pool));
        assert(!s.pools.contains_key(id));
        assert(value_or_zero(s.pool_ledger, id) == 0);
        assert forall|c: FungibleTokenId| #[trigger] value_or_zero(t.network_ledger, c)
            == all_pools_sum(t.pools, t.pool_ledger, c) by {
            lemma_sum_after_pool_insert(s.pools, s.pool_ledger, c, 0x1_0000_0000nat, id, pool);
            assert(value_or_zero(s.network_ledger, c) == all_pools_sum(s.pools, s.pool_ledger, c));
        }
        assert forall|i: PoolId| !t.pools.contains_key(i) implies #[trigger] value_or_zero(
            t.pool_ledger,
            i,
        ) == 0 by {
            assert(!s.pools.contains_key(i));
        }
    }
}

/// A deposit keeps every network ledger equal to the sum of the ledgers of
/// its currency's pools, and keeps ledgers to pools.
pub proof fn law_deposit_keeps_ledgers_consistent(
    s: LandMintingView,
    origin: Origin,
    pool_id: PoolId,
    amount: Balance,
    v_currency_id: Option<FungibleTokenId>,
    v_total_issuance: Balance,
)
    ensures
        network_matches_pools(s) ==> network_matches_pools(
            deposit_spec(s, origin, pool_id, amount, v_currency_id, v_total_issuance).0,
        ),
        only_pools_have_ledgers(s) ==> only_pools_have_ledgers(
            deposit_spec(s, origin, pool_id, amount, v_currency_id, v_total_issuance).0,
        ),
{
    let (t, ops, result) = deposit_spec(
        s,
        origin,
        pool_id,
        amount,
        v_currency_id,
        v_total_issuance,
    );
    if result is Ok {
        lemma_permill_mul_le(s.fees.0, amount);
        let added = (amount - fee_of(s.fees.0, amount)) as Balance;
        let new_pool = (value_or_zero(s.pool_ledger, pool_id) + added) as Balance;
        assert(t.pool_ledger == s.pool_ledger.insert(pool_id, new_pool));
        if network_matches_pools(s) {
            assert forall|c: FungibleTokenId| #[trigger] value_or_zero(t.network_ledger, c)
                == all_pools_sum(t.pools, t.pool_ledger, c) by {
                lemma_sum_after_ledger_update(
                    s.pools,
                    s.pool_ledger,
                    c,
                    0x1_0000_0000nat,
                    pool_id,
                    new_pool,
                );
                assert(value_or_zero(s.network_ledger, c) == all_pools_sum(
                    s.pools,
                    s.pool_ledger,
                    c,
                ));
            }
        }
        if only_pools_have_ledgers(s) {
            assert forall|i: PoolId| !t.pools.contains_key(i) implies #[trigger] value_or_zero(
                t.pool_ledger,
                i,
            ) == 0 by {
                assert(value_or_zero(s.pool_ledger, i) == 0);
            }
        }
    }
}

/// A redemption keeps every network ledger equal to the sum of the ledgers
/// of its currency's pools, and keeps ledgers to pools.
pub proof fn law_redeem_keeps_ledgers_consistent(
    s: LandMintingView,
    origin: Origin,
    pool_id: PoolId,
    vcurrency_id: FungibleTokenId,
    vamount: Balance,
    currency_id: Option<FungibleTokenId>,
    v_total_issuance: Balance,
)
    ensures
        network_matches_pools(s) ==> network_matches_pools(
            redeem_spec(s, origin, pool_id, vcurrency_id, vamount, currency_id, v_total_issuance).0,
        ),
        only_pools_have_ledgers(s) ==> only_pools_have_ledgers(
            redeem_spec(s, origin, pool_id, vcurrency_id, vamount, currency_id, v_total_issuance).0,
        ),
{
    let (t, ops, result) = redeem_spec(
        s,
        origin,
        pool_id,
        vcurrency_id,
        vamount,
        currency_id,
        v_total_issuance,
    );
    if result is Ok {
        let currency = currency_id->0;
        let ledger = value_or_zero(s.network_ledger, currency);
        let amount = receipt_amount(redeem_burn(s, vamount), ledger, v_total_issuance);
        let new_pool = (value_or_zero(s.pool_ledger, pool_id) - amount) as Balance;
        assert(t.pool_ledger == s.pool_ledger.insert(pool_id, new_pool));
        assert(t.network_ledger == s.network_ledger.insert(currency, (ledger - amount) as Balance));
        if network_matches_pools(s) {
            assert forall|c: FungibleTokenId| #[trigger] value_or_zero(t.network_ledger, c)
                == all_pools_sum(t.pools, t.pool_ledger, c) by {
                lemma_sum_after_ledger_update(
                    s.pools,
                    s.pool_ledger,
                    c,
                    0x1_0000_0000nat,
                    pool_id,
                    new_pool,
                );
                assert(value_or_zero(s.network_ledger, c) == all_pools_sum(
                    s.pools,
                    s.pool_ledger,
                    c,
                ));
            }
        }
        if only_pools_have_ledgers(s) {
            assert forall|i: PoolId| !t.pools.contains_key(i) implies #[trigger] value_or_zero(
                t.pool_ledger,
                i,
            ) == 0 by {
                assert(value_or_zero(s.pool_ledger, i) == 0);
            }
        }
    }
}

/// Every filed unlock request of a currency has an id below that currency's
/// next queue id.
pub open spec fn unlock_ids_below_next(s: LandMintingView) -> bool {
    forall|c: FungibleTokenId, q: QueueId| #[trigger]
        s.user_unlock_request.contains_key((c, q)) ==> q < id_or_zero(s.queue_next_id, c)
}

/// A redemption files its request under an id that no earlier request of
/// the currency holds, so no request is overwritten: every other request
/// stays as it was, and the currency's next queue id moves past the new one.
pub proof fn law_redeem_files_under_fresh_id(
    s: LandMintingView,
    origin: Origin,
    pool_id: PoolId,
    vcurrency_id: FungibleTokenId,
    vamount: Balance,
    currency_id: Option<FungibleTokenId>,
    v_total_issuance: Balance,
)
    requires
        unlock_ids_below_next(s),
    ensures
        ({
            let (t, ops, result) = redeem_spec(
                s,
                origin,
                pool_id,
                vcurrency_id,
                vamount,
                currency_id,
                v_total_issuance,
            );
            let currency = currency_id->0;
            let queue_id = id_or_zero(s.queue_next_id, currency);
            &&& unlock_ids_below_next(t)
            &&& result is Ok ==> {
                &&& !s.user_unlock_request.contains_key((currency, queue_id))
                &&& t.user_unlock_request.remove((currency, queue_id)) == s.user_unlock_request
            }
        }),
{
    let (t, ops, result) = redeem_spec(
        s,
        origin,
        pool_id,
        vcurrency_id,
        vamount,
        currency_id,
        v_total_issuance,
    );
    if result is Ok {
        let currency = currency_id->0;
        let queue_id = id_or_zero(s.queue_next_id, currency);
        assert(!s.user_unlock_request.contains_key((currency, queue_id)));
        assert(t.user_unlock_request.remove((currency, queue_id)) =~= s.user_unlock_request);
        assert forall|c: FungibleTokenId, q: QueueId| #[trigger]
            t.user_unlock_request.contains_key((c, q)) implies q < id_or_zero(t.queue_next_id, c) by {
            if (c, q) != (currency, queue_id) {
                assert(s.user_unlock_request.contains_key((c, q)));
            }
        }
    }
}

/// A call of the land-minting pallet with the runtime's answers to it.
pub enum LandMintingCall {
    CreatePool { origin: Origin, currency_id: FungibleTokenId, max_nft_reward: u32, commission: u32 },
    Deposit {
        origin: Origin,
        pool_id: PoolId,
        amount: Balance,
        v_currency_id: Option<FungibleTokenId>,
        v_total_issuance: Balance,
    },
    Redeem {
        origin: Origin,
        pool_id: PoolId,
        vcurrency_id: FungibleTokenId,
        vamount: Balance,
        base_currency_id: Option<FungibleTokenId>,
        v_total_issuance: Balance,
    },
}

/// The state after `call`.
pub open spec fn apply_land_minting_call(s: LandMintingView, call: LandMintingCall) -> LandMintingView {
    match call {
        LandMintingCall::CreatePool { origin, currency_id, max_nft_reward, commission } =>
            create_pool_spec(s, origin, currency_id, max_nft_reward, commission).0,
        LandMintingCall::Deposit { origin, pool_id, amount, v_currency_id, v_total_issuance } =>
            deposit_spec(s, origin, pool_id, amount, v_currency_id, v_total_issuance).0,
        LandMintingCall::Redeem {
            origin,
            pool_id,
            vcurrency_id,
            vamount,
            base_currency_id,
            v_total_issuance,
        } => redeem_spec(
            s,
            origin,
            pool_id,
            vcurrency_id,
            vamount,
            base_currency_id,
            v_total_issuance,
        ).0,
    }
}

/// The state after the calls `calls`, in order.
pub open spec fn apply_land_minting_calls(s: LandMintingView, calls: Seq<LandMintingCall>) -> LandMintingView
    decreases calls.len(),
{
    if calls.len() == 0 {
        s
    } else {
        apply_land_minting_call(apply_land_minting_calls(s, calls.drop_last()), calls.last())
    }
}

/// Through any sequence of pool creations, deposits and redemptions, the
/// network ledger of every currency stays the sum of the ledgers of that
/// currency's pools.
pub proof fn law_calls_keep_ledgers_consistent(s: LandMintingView, calls: Seq<LandMintingCall>)
    requires
        ledgers_consistent(s),
        pool_ids_below_next(s),
    ensures
        ledgers_consistent(apply_land_minting_calls(s, calls)),
        pool_ids_below_next(apply_land_minting_calls(s, calls)),
    decreases calls.len(),
{
    if calls.len() > 0 {
        law_calls_keep_ledgers_consistent(s, calls.drop_last());
        let before = apply_land_minting_calls(s, calls.drop_last());
        match calls.last() {
            LandMintingCall::CreatePool { origin, currency_id, max_nft_reward, commission } => {
                law_create_pool_allocates_next_id(
                    before,
                    origin,
                    currency_id,
                    max_nft_reward,
                    commission,
                );
                law_create_pool_keeps_ledgers_consistent(
                    before,
                    origin,
                    currency_id,
                    max_nft_reward,
                    commission,
                );
            },
            LandMintingCall::Deposit { origin, pool_id, amount, v_currency_id, v_total_issuance } => {
                law_deposit_keeps_ledgers_consistent(
                    before,
                    origin,
                    pool_id,
                    amount,
                    v_currency_id,
                    v_total_issuance,
                );
            },
            LandMintingCall::Redeem {
                origin,
                pool_id,
                vcurrency_id,
                vamount,
                base_currency_id,
                v_total_issuance,
            } => {
                law_redeem_keeps_ledgers_consistent(
                    before,
                    origin,
                    pool_id,
                    vcurrency_id,
                    vamount,
                    base_currency_id,
                    v_total_issuance,
                );
            },
        }
    }
}

/// Through any sequence of pool creations, deposits and redemptions, no
/// unlock request is filed under an id that an earlier request of the same
/// currency holds.
pub proof fn law_calls_keep_unlock_ids_fresh(s: LandMintingView, calls: Seq<LandMintingCall>)
    requires
        unlock_ids_below_next(s),
    ensures
        unlock_ids_below_next(apply_land_minting_calls(s, calls)),
    decreases calls.len(),
{
    if calls.len() > 0 {
        law_calls_keep_unlock_ids_fresh(s, calls.drop_last());
        let before = apply_land_minting_calls(s, calls.drop_last());
        match calls.last() {
            LandMintingCall::Redeem {
                origin,
                pool_id,
                vcurrency_id,
                vamount,
                base_currency_id,
                v_total_issuance,
            } => {
                law_redeem_files_under_fresh_id(
                    before,
                    origin,
                    pool_id,
                    vcurrency_id,
                    vamount,
                    base_currency_id,
                    v_total_issuance,
                );
            },
            _ => {},
        }
    }
}


/// A signed pool creation for any currency other than the native tokens 0
/// and 1 is refused as unsupported, before any fee is asked, and adds no
/// pool; for those two currencies it succeeds while pool ids remain.
pub proof fn law_create_pool_only_native_currencies(
    s: LandMintingView,
    who: AccountId,
    currency_id: FungibleTokenId,
    max_nft_reward: u32,
    commission: u32,
)
    ensures
        ({
            let (t, ops, result) = create_pool_spec(
                s,
                Origin::Signed(who),
                currency_id,
                max_nft_reward,
                commission,
            );
            let native = currency_id == FungibleTokenId::NativeToken(0) || currency_id
                == FungibleTokenId::NativeToken(1);
            &&& !native ==> {
                &&& result == Err::<Event, Error>(Error::CurrencyIsNotSupported)
                &&& ops.len() == 0
                &&& t == s
            }
            &&& result is Ok ==> native
            &&& native && s.next_pool_id < u32::MAX ==> {
                &&& result == Ok::<Event, Error>(Event::PoolCreated(who, s.next_pool_id, currency_id))
                &&& t.pools.contains_key(s.next_pool_id)
                &&& t.pools[s.next_pool_id].currency_id == currency_id
            }
        }),
{
}

/// The currency amount a redemption of `vamount` at redeem fee rate `rate`
/// takes off the ledgers: what remains after the fee, priced by the network
/// ledger against the receipt currency's total issuance.
pub open spec fn redeemed_currency_amount(
    rate: u32,
    vamount: Balance,
    ledger: Balance,
    v_total_issuance: Balance,
) -> int {
    ((vamount - permill_mul_spec(rate, vamount)) * ledger) / (v_total_issuance as int)
}

/// Whether a queue entry (present or not, with its total and length) has
/// room for one more request of `amount`.
pub open spec fn queue_has_room(
    present: bool,
    total: Balance,
    len: nat,
    amount: int,
    maximum_queue: u32,
) -> bool {
    if present {
        len < maximum_queue && total + amount <= u128::MAX
    } else {
        maximum_queue > 0
    }
}

/// A redemption whose checks before the currency amount pass (signed,
/// above the minimum, the pool's currency, an issuance, a current round and
/// an unlock duration that add up), whose currency amount is at most the
/// pool's ledger and the network ledger, whose currency has a queue id left
/// and whose two unlock queues have room succeeds: the redeemer pays the fee
/// and has what remains burnt, both ledgers fall by the currency amount
/// (to zero when the whole pool is redeemed), and the request is filed under
/// the currency's next queue id, which advances by one.
pub proof fn law_redeem_succeeds_within_ledgers(
    s: LandMintingView,
    who: AccountId,
    pool_id: PoolId,
    vcurrency_id: FungibleTokenId,
    vamount: Balance,
    v_total_issuance: Balance,
)
    requires
        s.pools.contains_key(pool_id),
        vamount >= value_or_zero(s.minimum_redeem, vcurrency_id),
        v_total_issuance > 0,
        s.current_staking_round.contains_key(s.pools[pool_id].currency_id),
        s.unlock_duration.contains_key(s.pools[pool_id].currency_id),
        next_staking_round_spec(
            s.unlock_duration[s.pools[pool_id].currency_id],
            s.current_staking_round[s.pools[pool_id].currency_id],
        ) is Ok,
        ({
            let currency = s.pools[pool_id].currency_id;
            let ledger = value_or_zero(s.network_ledger, currency);
            let amount = redeemed_currency_amount(s.fees.1, vamount, ledger, v_total_issuance);
            let round = next_staking_round_spec(
                s.unlock_duration[currency],
                s.current_staking_round[currency],
            )->Ok_0;
            &&& amount <= value_or_zero(s.pool_ledger, pool_id)
            &&& amount <= ledger
            &&& id_or_zero(s.queue_next_id, currency) < u32::MAX
            &&& queue_has_room(
                s.user_unlock_ledger.contains_key((who, currency)),
                s.user_unlock_ledger[(who, currency)].0,
                s.user_unlock_ledger[(who, currency)].1.len(),
                amount,
                s.config.maximum_queue,
            )
            &&& queue_has_room(
                s.network_redeem_queue.contains_key((round, currency)),
                s.network_redeem_queue[(round, currency)].0,
                s.network_redeem_queue[(round, currency)].1.len(),
                amount,
                s.config.maximum_queue,
            )
        }),
    ensures
        ({
            let currency = s.pools[pool_id].currency_id;
            let (t, ops, result) = redeem_spec(
                s,
                Origin::Signed(who),
                pool_id,
                vcurrency_id,
                vamount,
                Some(currency),
                v_total_issuance,
            );
            let ledger = value_or_zero(s.network_ledger, currency);
            let fee = permill_mul_spec(s.fees.1, vamount);
            let amount = redeemed_currency_amount(s.fees.1, vamount, ledger, v_total_issuance);
            let queue_id = id_or_zero(s.queue_next_id, currency);
            let round = next_staking_round_spec(
                s.unlock_duration[currency],
                s.current_staking_round[currency],
            )->Ok_0;
            &&& result == Ok::<Event, Error>(Event::Redeemed(who, pool_id, (vamount - fee) as Balance))
            &&& ops == seq![
                CurrencyOp::Transfer {
                    currency_id: vcurrency_id,
                    from: who,
                    to: s.config.network_fee_account,
                    amount: fee as Balance,
                },
                CurrencyOp::Withdraw {
                    currency_id: vcurrency_id,
                    who,
                    amount: (vamount - fee) as Balance,
                },
            ]
            &&& t.pool_ledger[pool_id] == value_or_zero(s.pool_ledger, pool_id) - amount
            &&& t.network_ledger[currency] == ledger - amount
            &&& !s.user_unlock_request.contains_key((currency, queue_id)) ==> t.user_unlock_request
                == s.user_unlock_request.insert((currency, queue_id), (who, amount as Balance, round))
            &&& t.user_unlock_request[(currency, queue_id)] == (who, amount as Balance, round)
            &&& t.queue_next_id[currency] == queue_id + 1
        }),
{
    lemma_permill_mul_le(s.fees.1, vamount);
}

/// A redemption is refused with an arithmetic overflow only when the
/// receipt currency has no issuance, the unlock round overflows, its
/// currency amount exceeds the pool's ledger or the network ledger, the
/// currency's queue ids are used up, or a queue total would overflow.
pub proof fn law_redeem_overflow_only_when_exceeded(
    s: LandMintingView,
    origin: Origin,
    pool_id: PoolId,
    vcurrency_id: FungibleTokenId,
    vamount: Balance,
    currency_id: Option<FungibleTokenId>,
    v_total_issuance: Balance,
)
    ensures
        ({
            let result = redeem_spec(
                s,
                origin,
                pool_id,
                vcurrency_id,
                vamount,
                currency_id,
                v_total_issuance,
            ).2;
            let who = signer_of(origin)->0;
            let currency = s.pools[pool_id].currency_id;
            let ledger = value_or_zero(s.network_ledger, currency);
            let amount = redeemed_currency_amount(s.fees.1, vamount, ledger, v_total_issuance);
            let next = next_staking_round_spec(
                s.unlock_duration[currency],
                s.current_staking_round[currency],
            );
            let round = next->Ok_0;
            result == Err::<Event, Error>(Error::ArithmeticOverflow) ==> {
                ||| v_total_issuance == 0
                ||| next == Err::<StakingRound, Error>(Error::ArithmeticOverflow)
                ||| amount > value_or_zero(s.pool_ledger, pool_id)
                ||| amount > ledger
                ||| id_or_zero(s.queue_next_id, currency) == u32::MAX
                ||| (s.user_unlock_ledger.contains_key((who, currency)) && s.user_unlock_ledger[(
                    who,
                    currency,
                )].0 + amount > u128::MAX)
                ||| (s.network_redeem_queue.contains_key((round, currency))
                    && s.network_redeem_queue[(round, currency)].0 + amount > u128::MAX)
            }
        }),
{
    lemma_permill_mul_le(s.fees.1, vamount);
}

} // verus!
