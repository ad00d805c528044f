//! The margin protocol: traders deposit margin into the protocol and open leveraged long
//! and short positions against liquidity pools. Profits and losses are realized against
//! the pool when positions are closed; traders and pools are margin called, stopped out
//! or force closed when their risk crosses the thresholds of the trading pairs.
//!
//! Sums over positions are taken in the order the positions were opened, and sums over
//! the trading pairs of a pool in the order a first position was opened for each pair.
use vstd::prelude::*;
use crate::arithmetic::{
    fixed_i128_from_fixed_u128, fixed_i128_from_u128, fixed_i128_mul_signum, spec_u128_from_fixed,
    u128_from_fixed_i128,
};
use crate::error::{DispatchError, MarginError};
use crate::fixed::{
    spec_fixed_div, spec_fixed_mul, spec_saturate_i128, spec_saturate_u128, Fixed, Permill, Price,
};
use crate::ledger::{after_transfer, transfer_ok, Balances, Ledger};
use crate::base_pools::{BaseLiquidityPools, pool_deposit_error, pool_deposit_ok, pool_withdraw_error, pool_withdraw_ok, pools_after};
use crate::margin_pools::{spec_saturating_abs, MarginLiquidityPools, OpenPositionError, PoolPair};
use crate::prices::Prices;
use crate::primitives::{
    spec_is_short, spec_leverage_value, AccountId, Balance, CurrencyId, Leverage, LiquidityPoolId,
    TradingPair,
};
use crate::table::{seq_has_key, Table, TableKey};

verus! {

pub type PositionId = u64;

/// A margin position.
#[derive(Clone, Copy, Debug, PartialEq, Eq, Structural)]
pub struct Position {
    /// Owner.
    pub owner: AccountId,
    /// The pool the position is opened in.
    pub pool: LiquidityPoolId,
    /// Trading pair.
    pub pair: TradingPair,
    /// Leverage.
    pub leverage: Leverage,
    /// Leveraged held amount: positive if long, negative if short.
    pub leveraged_held: Fixed,
    /// Leveraged debits amount: negative if long, positive if short.
    pub leveraged_debits: Fixed,
    /// Accumulated swap rate when the position was opened.
    pub open_accumulated_swap_rate: Fixed,
    /// Margin held.
    pub margin_held: Fixed,
}

/// Totals of one side of the positions of a pair in a pool.
#[derive(Clone, Copy, Debug, PartialEq, Eq, Structural)]
pub struct LeveragedAmounts {
    /// Leveraged held amount.
    pub held: Fixed,
    /// Leveraged debits amount.
    pub debits: Fixed,
}

/// Number and totals of the positions of a pair in a pool.
#[derive(Clone, Copy, Debug, PartialEq, Eq, Structural)]
pub struct PositionsSnapshot {
    /// Positions count.
    pub positions_count: PositionId,
    /// Totals of long positions.
    pub long: LeveragedAmounts,
    /// Totals of short positions.
    pub short: LeveragedAmounts,
}

/// Risk threshold.
#[derive(Clone, Copy, Debug, PartialEq, Eq, Structural)]
pub struct RiskThreshold {
    /// Margin call threshold.
    pub margin_call: Permill,
    /// Stop out threshold.
    pub stop_out: Permill,
}

/// Risk thresholds of a trading pair.
#[derive(Clone, Copy, Debug, PartialEq, Eq, Structural)]
pub struct TradingPairRiskThreshold {
    /// Trader risk threshold.
    pub trader: Option<RiskThreshold>,
    /// Pool Equity to Net Position ratio (ENP) threshold.
    pub enp: Option<RiskThreshold>,
    /// Pool Equity to Longest Leg ratio (ELL) threshold.
    pub ell: Option<RiskThreshold>,
}

impl TradingPairRiskThreshold {
    pub fn new(trader: Option<RiskThreshold>, enp: Option<RiskThreshold>, ell: Option<RiskThreshold>) -> (r: Self)
        ensures
            r == (TradingPairRiskThreshold { trader, enp, ell }),
    {
        TradingPairRiskThreshold { trader, enp, ell }
    }
}

/// The risk of a trader or a pool.
#[derive(Clone, Copy, Debug, PartialEq, Eq, Structural)]
pub enum Risk {
    /// Below no threshold.
    Safe,
    MarginCall,
    StopOut,
}

/// What is about to happen, for a risk check.
#[derive(Clone, Copy, Debug, PartialEq, Eq, Structural)]
pub enum Action {
    /// Nothing: the risk as it is.
    Nothing,
    Withdraw(Balance),
    OpenPosition(Position),
}

/// Key of per-trader, per-pool storage.
#[derive(Clone, Copy, Debug, PartialEq, Eq, Structural)]
pub struct TraderPool {
    pub who: AccountId,
    pub pool: LiquidityPoolId,
}

impl TableKey for TraderPool {
    fn key_eq(&self, other: &Self) -> (r: bool) {
        *self == *other
    }
}

fn merr(e: MarginError) -> (r: DispatchError)
    ensures
        r == DispatchError::MarginProtocol(e),
{
    DispatchError::MarginProtocol(e)
}

pub open spec fn zero_amounts() -> LeveragedAmounts {
    LeveragedAmounts { held: Fixed { inner: 0 }, debits: Fixed { inner: 0 } }
}

pub open spec fn empty_snapshot() -> PositionsSnapshot {
    PositionsSnapshot { positions_count: 0, long: zero_amounts(), short: zero_amounts() }
}

pub open spec fn zero_threshold() -> RiskThreshold {
    RiskThreshold { margin_call: Permill::spec_zero(), stop_out: Permill::spec_zero() }
}

pub open spec fn no_thresholds() -> TradingPairRiskThreshold {
    TradingPairRiskThreshold { trader: None, enp: None, ell: None }
}

/// The larger of two ratios.
pub open spec fn pmax(a: Permill, b: Permill) -> Permill {
    if a.spec_parts() >= b.spec_parts() {
        a
    } else {
        b
    }
}

/// A ratio as a fixed-point inner value.
pub open spec fn permill_fixed(p: Permill) -> int {
    p.spec_parts() * 1_000_000_000_000
}

/// `a` fits in an `i128`.
pub open spec fn fits(a: int) -> bool {
    i128::MIN <= a <= i128::MAX
}

/// A price as a fixed-point inner value, saturating.
pub open spec fn fixed_of_price(p: Price) -> i128 {
    spec_saturate_i128(p.inner as int)
}

/// A balance as a fixed-point inner value, saturating.
pub open spec fn fixed_of_balance(b: Balance) -> i128 {
    spec_saturate_i128(b as int)
}

/// The larger of two fixed-point values.
pub open spec fn imax(a: i128, b: i128) -> i128 {
    if a >= b {
        a
    } else {
        b
    }
}

/// The smaller of two fixed-point values.
pub open spec fn imin(a: i128, b: i128) -> i128 {
    if a <= b {
        a
    } else {
        b
    }
}

/// Left fold over `s` that stops at the first error.
pub open spec fn try_fold<T, R>(s: Seq<T>, init: R, f: spec_fn(R, T) -> Result<R, MarginError>) -> Result<
    R,
    MarginError,
>
    decreases s.len(),
{
    if s.len() == 0 {
        Ok(init)
    } else {
        match try_fold(s.drop_last(), init, f) {
            Ok(a) => f(a, s.last()),
            Err(e) => Err(e),
        }
    }
}

/// One more step of a fold.
pub proof fn lemma_try_fold_step<T, R>(s: Seq<T>, init: R, f: spec_fn(R, T) -> Result<R, MarginError>, i: int)
    requires
        0 <= i < s.len(),
    ensures
        try_fold(s.take(i + 1), init, f) == match try_fold(s.take(i), init, f) {
            Ok(a) => f(a, s[i]),
            Err(e) => Err(e),
        },
{
    assert(s.take(i + 1).drop_last() =~= s.take(i));
}

/// A fold that failed on a prefix fails the same way on the whole sequence.
pub proof fn lemma_try_fold_err<T, R>(s: Seq<T>, init: R, f: spec_fn(R, T) -> Result<R, MarginError>, i: int)
    requires
        0 <= i <= s.len(),
        try_fold(s.take(i), init, f) is Err,
    ensures
        try_fold(s, init, f) == try_fold(s.take(i), init, f),
    decreases s.len() - i,
{
    if i == s.len() {
        assert(s.take(i) =~= s);
    } else {
        lemma_try_fold_step(s, init, f, i);
        lemma_try_fold_err(s, init, f, i + 1);
    }
}

/// A fold over all of `s`, from its prefix of length `s.len()`.
pub proof fn lemma_take_all<T>(s: Seq<T>)
    ensures
        s.take(s.len() as int) == s,
{
    assert(s.take(s.len() as int) =~= s);
}

/// Number of positions of `pair` in `pool` in `s`.
pub open spec fn count_in(s: Seq<(PositionId, Position)>, pool: LiquidityPoolId, pair: TradingPair) -> nat
    decreases s.len(),
{
    if s.len() == 0 {
        0
    } else {
        count_in(s.drop_last(), pool, pair) + if s.last().1.pool == pool && s.last().1.pair == pair {
            1nat
        } else {
            0nat
        }
    }
}

/// Removing one entry removes it from the count.
pub proof fn lemma_count_remove(s: Seq<(PositionId, Position)>, i: int, pool: LiquidityPoolId, pair: TradingPair)
    requires
        0 <= i < s.len(),
    ensures
        count_in(s.remove(i), pool, pair) + (if s[i].1.pool == pool && s[i].1.pair == pair {
            1nat
        } else {
            0nat
        }) == count_in(s, pool, pair),
    decreases s.len(),
{
    if i == s.len() - 1 {
        assert(s.remove(i) =~= s.drop_last());
    } else {
        assert(s.remove(i).drop_last() =~= s.drop_last().remove(i));
        assert(s.remove(i).last() == s.last());
        lemma_count_remove(s.drop_last(), i, pool, pair);
    }
}

/// A position counts in the count of its pair and pool.
pub proof fn lemma_count_positive(s: Seq<(PositionId, Position)>, i: int)
    requires
        0 <= i < s.len(),
    ensures
        count_in(s, s[i].1.pool, s[i].1.pair) > 0,
    decreases s.len(),
{
    if i < s.len() - 1 {
        lemma_count_positive(s.drop_last(), i);
    }
}

/// No position of the pair in the pool means a zero count.
pub proof fn lemma_count_none(s: Seq<(PositionId, Position)>, pool: LiquidityPoolId, pair: TradingPair)
    requires
        forall|i: int| 0 <= i < s.len() ==> !((#[trigger] s[i]).1.pool == pool && s[i].1.pair == pair),
    ensures
        count_in(s, pool, pair) == 0,
    decreases s.len(),
{
    if s.len() > 0 {
        assert(!(s[s.len() - 1].1.pool == pool && s[s.len() - 1].1.pair == pair));
        assert forall|i: int| 0 <= i < s.drop_last().len() implies !((#[trigger] s.drop_last()[i]).1.pool == pool
            && s.drop_last()[i].1.pair == pair) by {
            assert(s.drop_last()[i] == s[i]);
        }
        lemma_count_none(s.drop_last(), pool, pair);
    }
}

/// What a position adds to one side of the totals of `pair` in `pool`: its held amount
/// (`held`) or its debits, where it is of that pair and pool and on that side (`short`).
pub open spec fn side_term(p: Position, pool: LiquidityPoolId, pair: TradingPair, short: bool, held: bool) -> int {
    if p.pool == pool && p.pair == pair && spec_is_short(p.leverage) == short {
        if held {
            p.leveraged_held.inner as int
        } else {
            p.leveraged_debits.inner as int
        }
    } else {
        0
    }
}

/// Sum of `side_term` over the positions in `s`.
pub open spec fn side_sum(
    s: Seq<(PositionId, Position)>,
    pool: LiquidityPoolId,
    pair: TradingPair,
    short: bool,
    held: bool,
) -> int
    decreases s.len(),
{
    if s.len() == 0 {
        0
    } else {
        side_sum(s.drop_last(), pool, pair, short, held) + side_term(s.last().1, pool, pair, short, held)
    }
}

/// A long position holds a nonnegative amount against nonpositive debits; a short one the
/// reverse.
pub open spec fn signs_ok(p: Position) -> bool {
    if spec_is_short(p.leverage) {
        p.leveraged_held.inner <= 0 && p.leveraged_debits.inner >= 0
    } else {
        p.leveraged_held.inner >= 0 && p.leveraged_debits.inner <= 0
    }
}

/// The totals of a snapshot are the sums over the positions of `pair` in `pool` in `s`.
pub open spec fn totals_match(snap: PositionsSnapshot, s: Seq<(PositionId, Position)>, pool: LiquidityPoolId, pair: TradingPair) -> bool {
    &&& snap.long.held.inner == side_sum(s, pool, pair, false, true)
    &&& snap.long.debits.inner == side_sum(s, pool, pair, false, false)
    &&& snap.short.held.inner == side_sum(s, pool, pair, true, true)
    &&& snap.short.debits.inner == side_sum(s, pool, pair, true, false)
}

/// Removing one entry removes its term from the sum.
pub proof fn lemma_side_sum_remove(
    s: Seq<(PositionId, Position)>,
    i: int,
    pool: LiquidityPoolId,
    pair: TradingPair,
    short: bool,
    held: bool,
)
    requires
        0 <= i < s.len(),
    ensures
        side_sum(s.remove(i), pool, pair, short, held) + side_term(s[i].1, pool, pair, short, held) == side_sum(
            s,
            pool,
            pair,
            short,
            held,
        ),
    decreases s.len(),
{
    if i == s.len() - 1 {
        assert(s.remove(i) =~= s.drop_last());
    } else {
        assert(s.remove(i).drop_last() =~= s.drop_last().remove(i));
        assert(s.remove(i).last() == s.last());
        lemma_side_sum_remove(s.drop_last(), i, pool, pair, short, held);
    }
}

/// Where every position has the signs of its side, the held sum of the long side and the
/// debits sum of the short side are nonnegative, and the other two nonpositive.
pub proof fn lemma_side_sum_sign(s: Seq<(PositionId, Position)>, pool: LiquidityPoolId, pair: TradingPair, short: bool, held: bool)
    requires
        forall|i: int| 0 <= i < s.len() ==> signs_ok((#[trigger] s[i]).1),
    ensures
        short != held ==> side_sum(s, pool, pair, short, held) >= 0,
        short == held ==> side_sum(s, pool, pair, short, held) <= 0,
    decreases s.len(),
{
    if s.len() > 0 {
        assert(signs_ok(s[s.len() - 1].1));
        assert forall|i: int| 0 <= i < s.drop_last().len() implies signs_ok((#[trigger] s.drop_last()[i]).1) by {
            assert(s.drop_last()[i] == s[i]);
        }
        lemma_side_sum_sign(s.drop_last(), pool, pair, short, held);
    }
}

/// With no position of the pair in the pool, every sum is zero.
pub proof fn lemma_side_sum_zero(s: Seq<(PositionId, Position)>, pool: LiquidityPoolId, pair: TradingPair, short: bool, held: bool)
    requires
        count_in(s, pool, pair) == 0,
    ensures
        side_sum(s, pool, pair, short, held) == 0,
    decreases s.len(),
{
    if s.len() > 0 {
        lemma_side_sum_zero(s.drop_last(), pool, pair, short, held);
    }
}

/// The price of `base` in `quote`.
pub open spec fn spec_price(prices: Prices, base: CurrencyId, quote: CurrencyId) -> Result<Price, MarginError> {
    match prices.price(base, quote) {
        Some(p) => Ok(p),
        None => Err(MarginError::NoPrice),
    }
}

/// `price + ask_spread`, at most `max` where one is given.
pub open spec fn spec_ask_price(
    pools: MarginLiquidityPools,
    prices: Prices,
    pool: LiquidityPoolId,
    pair: TradingPair,
    max: Option<Price>,
) -> Result<i128, MarginError> {
    match spec_price(prices, pair.base, pair.quote) {
        Err(e) => Err(e),
        Ok(price) => match pools.pool_pair_option(pool, pair).ask_spread {
            None => Err(MarginError::NoAskSpread),
            Some(spread) => {
                let ask = spec_saturate_u128(price.inner + spread.inner);
                match max {
                    Some(m) => if ask > m.inner {
                        Err(MarginError::MarketPriceTooHigh)
                    } else {
                        Ok(spec_saturate_i128(ask as int))
                    },
                    None => Ok(spec_saturate_i128(ask as int)),
                }
            },
        },
    }
}

/// `price - bid_spread`, at least `min` where one is given.
pub open spec fn spec_bid_price(
    pools: MarginLiquidityPools,
    prices: Prices,
    pool: LiquidityPoolId,
    pair: TradingPair,
    min: Option<Price>,
) -> Result<i128, MarginError> {
    match spec_price(prices, pair.base, pair.quote) {
        Err(e) => Err(e),
        Ok(price) => match pools.pool_pair_option(pool, pair).bid_spread {
            None => Err(MarginError::NoBidSpread),
            Some(spread) => {
                let bid = spec_saturate_u128(price.inner - spread.inner);
                match min {
                    Some(m) => if bid < m.inner {
                        Err(MarginError::MarketPriceTooLow)
                    } else {
                        Ok(spec_saturate_i128(bid as int))
                    },
                    None => Ok(spec_saturate_i128(bid as int)),
                }
            },
        },
    }
}

/// `amount * price(currency in USD)`.
pub open spec fn spec_usd_value(prices: Prices, currency: CurrencyId, amount: i128) -> Result<i128, MarginError> {
    match spec_price(prices, currency, CurrencyId::AUSD) {
        Err(e) => Err(e),
        Ok(p) => match spec_fixed_mul(amount, fixed_of_price(p)) {
            Some(v) => Ok(v),
            None => Err(MarginError::NumOutOfBound),
        },
    }
}

/// `(unrealized profit and loss in USD, current price)` of a position:
/// `(current_price - open_price) * leveraged_held`, where the open price is
/// `|leveraged_debits / leveraged_held|` and the current price is the bid price of a long and
/// the ask price of a short, bounded by `price` where one is given.
pub open spec fn spec_unrealized_pl_and_price(
    pools: MarginLiquidityPools,
    prices: Prices,
    p: Position,
    price: Option<Price>,
) -> Result<(i128, i128), MarginError> {
    match spec_fixed_div(p.leveraged_debits.inner, p.leveraged_held.inner) {
        None => Err(MarginError::NumOutOfBound),
        Some(q) => {
            let open_price = spec_saturating_abs(q);
            let curr = if spec_is_short(p.leverage) {
                spec_ask_price(pools, prices, p.pool, p.pair, price)
            } else {
                spec_bid_price(pools, prices, p.pool, p.pair, price)
            };
            match curr {
                Err(e) => Err(e),
                Ok(c) => match spec_fixed_mul(p.leveraged_held.inner, (c - open_price) as i128) {
                    None => Err(MarginError::NumOutOfBound),
                    Some(u) => match spec_usd_value(prices, p.pair.quote, u) {
                        Err(e) => Err(e),
                        Ok(v) => Ok((v, c)),
                    },
                },
            }
        },
    }
}

/// Accumulated swap rate of a position in USD:
/// `(current_accumulated - open_accumulated) * |leveraged_debits|`.
pub open spec fn spec_accumulated_swap_rate_of_position(pools: MarginLiquidityPools, prices: Prices, p: Position) -> Result<
    i128,
    MarginError,
> {
    let acc = pools.accumulated(p.pool, p.pair);
    let current = if spec_is_short(p.leverage) {
        acc.short.inner
    } else {
        acc.long.inner
    };
    let rate = current - p.open_accumulated_swap_rate.inner;
    if !fits(rate) {
        Err(MarginError::NumOutOfBound)
    } else {
        match spec_fixed_mul(spec_saturating_abs(p.leveraged_debits.inner), rate as i128) {
            None => Err(MarginError::NumOutOfBound),
            Some(a) => spec_usd_value(prices, p.pair.quote, a),
        }
    }
}

/// What is summed over the positions of a trader.
#[derive(Clone, Copy, Debug, PartialEq, Eq, Structural)]
pub enum PositionTerm {
    UnrealizedPl,
    AccumulatedSwapRate,
    DebitsInUsd,
}

/// The term of one position in a sum.
pub open spec fn spec_term(pools: MarginLiquidityPools, prices: Prices, p: Position, term: PositionTerm) -> Result<
    i128,
    MarginError,
> {
    match term {
        PositionTerm::UnrealizedPl => match spec_unrealized_pl_and_price(pools, prices, p, None) {
            Ok(x) => Ok(x.0),
            Err(e) => Err(e),
        },
        PositionTerm::AccumulatedSwapRate => spec_accumulated_swap_rate_of_position(pools, prices, p),
        PositionTerm::DebitsInUsd => spec_usd_value(
            prices,
            p.pair.quote,
            spec_saturating_abs(p.leveraged_debits.inner),
        ),
    }
}

/// A step of a sum over the positions of `who` in `pool`: other positions are skipped.
pub open spec fn term_step(
    pools: MarginLiquidityPools,
    prices: Prices,
    who: AccountId,
    pool: LiquidityPoolId,
    term: PositionTerm,
) -> spec_fn(i128, (PositionId, Position)) -> Result<i128, MarginError> {
    |acc: i128, e: (PositionId, Position)|
        if e.1.owner == who && e.1.pool == pool {
            match spec_term(pools, prices, e.1, term) {
                Err(err) => Err(err),
                Ok(x) => if fits(acc + x) {
                    Ok((acc + x) as i128)
                } else {
                    Err(MarginError::NumOutOfBound)
                },
            }
        } else {
            Ok(acc)
        }
}

/// A step of the sum of margin held of `who` in `pool`, saturating.
pub open spec fn margin_step(who: AccountId, pool: LiquidityPoolId) -> spec_fn(i128, (PositionId, Position)) -> Result<
    i128,
    MarginError,
> {
    |acc: i128, e: (PositionId, Position)|
        if e.1.owner == who && e.1.pool == pool {
            Ok(spec_saturate_i128(acc + e.1.margin_held.inner))
        } else {
            Ok(acc)
        }
}

/// A step of the risk threshold of `who` in `pool`: the largest thresholds of the pairs of
/// its positions.
pub open spec fn threshold_step(
    thresholds: spec_fn(TradingPair) -> TradingPairRiskThreshold,
    who: AccountId,
    pool: LiquidityPoolId,
) -> spec_fn(RiskThreshold, (PositionId, Position)) -> Result<RiskThreshold, MarginError> {
    |acc: RiskThreshold, e: (PositionId, Position)|
        if e.1.owner == who && e.1.pool == pool {
            match thresholds(e.1.pair).trader {
                Some(t) => Ok(
                    RiskThreshold {
                        margin_call: pmax(acc.margin_call, t.margin_call),
                        stop_out: pmax(acc.stop_out, t.stop_out),
                    },
                ),
                None => Ok(acc),
            }
        } else {
            Ok(acc)
        }
}

/// Unrealized profit and loss of one side of a snapshot in USD:
/// `held * current_price + debits`, at the given current price.
pub open spec fn spec_side_pl(
    prices: Prices,
    pair: TradingPair,
    amounts: LeveragedAmounts,
    curr: Result<i128, MarginError>,
) -> Result<i128, MarginError> {
    match curr {
        Err(e) => Err(e),
        Ok(c) => match spec_fixed_mul(amounts.held.inner, c) {
            None => Err(MarginError::NumOutOfBound),
            Some(b) => if !fits(b + amounts.debits.inner) {
                Err(MarginError::NumOutOfBound)
            } else {
                spec_usd_value(prices, pair.quote, (b + amounts.debits.inner) as i128)
            },
        },
    }
}

/// Unrealized profit and loss of the positions of `pair` in `pool`, from their snapshot: longs
/// at the bid price, shorts at the ask price.
pub open spec fn spec_snapshot_pl(
    pools: MarginLiquidityPools,
    prices: Prices,
    pool: LiquidityPoolId,
    pair: TradingPair,
    snap: PositionsSnapshot,
) -> Result<i128, MarginError> {
    match spec_side_pl(prices, pair, snap.long, spec_bid_price(pools, prices, pool, pair, None)) {
        Err(e) => Err(e),
        Ok(l) => match spec_side_pl(prices, pair, snap.short, spec_ask_price(pools, prices, pool, pair, None)) {
            Err(e) => Err(e),
            Ok(sh) => if fits(l + sh) {
                Ok((l + sh) as i128)
            } else {
                Err(MarginError::NumOutOfBound)
            },
        },
    }
}

/// A step of the unrealized profit and loss of `pool`.
pub open spec fn pool_pl_step(pools: MarginLiquidityPools, prices: Prices, pool: LiquidityPoolId) -> spec_fn(
    i128,
    (PoolPair, PositionsSnapshot),
) -> Result<i128, MarginError> {
    |acc: i128, e: (PoolPair, PositionsSnapshot)|
        if e.0.pool == pool {
            match spec_snapshot_pl(pools, prices, pool, e.0.pair, e.1) {
                Err(err) => Err(err),
                Ok(x) => if fits(acc + x) {
                    Ok((acc + x) as i128)
                } else {
                    Err(MarginError::NumOutOfBound)
                },
            }
        } else {
            Ok(acc)
        }
}

/// Adds the net position and the longest leg of one snapshot, in USD, to `acc`.
pub open spec fn nl_add(prices: Prices, acc: (i128, i128), pair: TradingPair, snap: PositionsSnapshot) -> Result<
    (i128, i128),
    MarginError,
> {
    let net = snap.long.held.inner + snap.short.held.inner;
    if !fits(net) {
        Err(MarginError::NumOutOfBound)
    } else {
        match spec_usd_value(prices, pair.base, spec_saturating_abs(net as i128)) {
            Err(e) => Err(e),
            Ok(net_usd) => {
                let longest = imax(snap.long.held.inner, spec_saturating_abs(snap.short.held.inner));
                match spec_usd_value(prices, pair.base, spec_saturating_abs(longest)) {
                    Err(e) => Err(e),
                    Ok(longest_usd) => if !fits(acc.0 + net_usd) || !fits(acc.1 + longest_usd) {
                        Err(MarginError::NumOutOfBound)
                    } else {
                        Ok(((acc.0 + net_usd) as i128, (acc.1 + longest_usd) as i128))
                    },
                }
            },
        }
    }
}

/// The USD value of a non-negative amount is non-negative.
proof fn lemma_usd_value_nonneg(prices: Prices, currency: CurrencyId, amount: i128)
    requires
        amount >= 0,
        spec_usd_value(prices, currency, amount) is Ok,
    ensures
        spec_usd_value(prices, currency, amount)->Ok_0 >= 0,
{
    let p = spec_price(prices, currency, CurrencyId::AUSD)->Ok_0;
    assert(fixed_of_price(p) >= 0);
}

/// Adding a pair to non-negative totals keeps them non-negative.
proof fn lemma_nl_add_nonneg(prices: Prices, acc: (i128, i128), pair: TradingPair, snap: PositionsSnapshot)
    requires
        acc.0 >= 0,
        acc.1 >= 0,
        nl_add(prices, acc, pair, snap) is Ok,
    ensures
        nl_add(prices, acc, pair, snap)->Ok_0.0 >= 0,
        nl_add(prices, acc, pair, snap)->Ok_0.1 >= 0,
{
    let net = snap.long.held.inner + snap.short.held.inner;
    lemma_usd_value_nonneg(prices, pair.base, spec_saturating_abs(net as i128));
    let longest = imax(snap.long.held.inner, spec_saturating_abs(snap.short.held.inner));
    lemma_usd_value_nonneg(prices, pair.base, spec_saturating_abs(longest));
}

/// The net position and longest leg summed over snapshots are non-negative.
proof fn lemma_nl_fold_nonneg(s: Seq<(PoolPair, PositionsSnapshot)>, prices: Prices, pool: LiquidityPoolId)
    requires
        try_fold(s, (0i128, 0i128), nl_step(prices, pool)) is Ok,
    ensures
        try_fold(s, (0i128, 0i128), nl_step(prices, pool))->Ok_0.0 >= 0,
        try_fold(s, (0i128, 0i128), nl_step(prices, pool))->Ok_0.1 >= 0,
    decreases s.len(),
{
    if s.len() > 0 {
        lemma_nl_fold_nonneg(s.drop_last(), prices, pool);
        let a = try_fold(s.drop_last(), (0i128, 0i128), nl_step(prices, pool))->Ok_0;
        if s.last().0.pool == pool {
            lemma_nl_add_nonneg(prices, a, s.last().0.pair, s.last().1);
        }
    }
}

/// A step of the net position and longest leg of `pool`.
pub open spec fn nl_step(prices: Prices, pool: LiquidityPoolId) -> spec_fn((i128, i128), (PoolPair, PositionsSnapshot)) -> Result<
    (i128, i128),
    MarginError,
> {
    |acc: (i128, i128), e: (PoolPair, PositionsSnapshot)|
        if e.0.pool == pool {
            nl_add(prices, acc, e.0.pair, e.1)
        } else {
            Ok(acc)
        }
}

/// The snapshot of a single position.
pub open spec fn position_snapshot(p: Position) -> PositionsSnapshot {
    let amounts = LeveragedAmounts { held: p.leveraged_held, debits: p.leveraged_debits };
    if spec_is_short(p.leverage) {
        PositionsSnapshot { positions_count: 1, long: zero_amounts(), short: amounts }
    } else {
        PositionsSnapshot { positions_count: 1, long: amounts, short: zero_amounts() }
    }
}

/// A step of the ENP and ELL thresholds of `pool`: the largest of the pairs that have both.
pub open spec fn pool_threshold_step(
    thresholds: spec_fn(TradingPair) -> TradingPairRiskThreshold,
    pool: LiquidityPoolId,
) -> spec_fn((RiskThreshold, RiskThreshold), (PoolPair, PositionsSnapshot)) -> Result<
    (RiskThreshold, RiskThreshold),
    MarginError,
> {
    |acc: (RiskThreshold, RiskThreshold), e: (PoolPair, PositionsSnapshot)|
        if e.0.pool == pool {
            match (thresholds(e.0.pair).enp, thresholds(e.0.pair).ell) {
                (Some(enp), Some(ell)) => Ok(
                    (
                        RiskThreshold {
                            margin_call: pmax(acc.0.margin_call, enp.margin_call),
                            stop_out: pmax(acc.0.stop_out, enp.stop_out),
                        },
                        RiskThreshold {
                            margin_call: pmax(acc.1.margin_call, ell.margin_call),
                            stop_out: pmax(acc.1.stop_out, ell.stop_out),
                        },
                    ),
                ),
                _ => Ok(acc),
            }
        } else {
            Ok(acc)
        }
}

/// The snapshot after a position is added; `None` where a total overflows. The position is
/// added to the totals of its own side: the longs for a long, the shorts for a short.
pub open spec fn snapshot_after_insert(s: PositionsSnapshot, p: Position) -> Option<PositionsSnapshot> {
    let side = if spec_is_short(p.leverage) {
        s.short
    } else {
        s.long
    };
    let held = side.held.inner + p.leveraged_held.inner;
    let debits = side.debits.inner + p.leveraged_debits.inner;
    if !fits(held) || !fits(debits) {
        None
    } else {
        let amounts = LeveragedAmounts { held: Fixed { inner: held as i128 }, debits: Fixed { inner: debits as i128 } };
        if spec_is_short(p.leverage) {
            Some(PositionsSnapshot { positions_count: (s.positions_count + 1) as u64, long: s.long, short: amounts })
        } else {
            Some(PositionsSnapshot { positions_count: (s.positions_count + 1) as u64, long: amounts, short: s.short })
        }
    }
}

/// One side's totals without a position, saturating.
pub open spec fn amounts_without(a: LeveragedAmounts, p: Position) -> LeveragedAmounts {
    LeveragedAmounts {
        held: Fixed { inner: spec_saturate_i128(a.held.inner - p.leveraged_held.inner) },
        debits: Fixed { inner: spec_saturate_i128(a.debits.inner - p.leveraged_debits.inner) },
    }
}

/// The snapshot after a position is removed.
pub open spec fn snapshot_after_remove(s: PositionsSnapshot, p: Position) -> PositionsSnapshot {
    if spec_is_short(p.leverage) {
        PositionsSnapshot { positions_count: (s.positions_count - 1) as u64, long: s.long, short: amounts_without(s.short, p) }
    } else {
        PositionsSnapshot { positions_count: (s.positions_count - 1) as u64, long: amounts_without(s.long, p), short: s.short }
    }
}

/// Removing a position from the snapshot it was just added to gives back the snapshot it was
/// added to.
pub proof fn lemma_insert_then_remove(s: PositionsSnapshot, p: Position)
    requires
        snapshot_after_insert(s, p) is Some,
        s.positions_count < u64::MAX,
    ensures
        snapshot_after_remove(snapshot_after_insert(s, p)->0, p) == s,
{
}

/// Number of positions of `who` in `pool` in `s`.
pub open spec fn trader_count(s: Seq<(PositionId, Position)>, who: AccountId, pool: LiquidityPoolId) -> nat
    decreases s.len(),
{
    if s.len() == 0 {
        0
    } else {
        trader_count(s.drop_last(), who, pool) + if s.last().1.owner == who && s.last().1.pool == pool {
            1nat
        } else {
            0nat
        }
    }
}

/// `who` has a position in `pool` in `s`.
pub open spec fn has_position_in(s: Seq<(PositionId, Position)>, who: AccountId, pool: LiquidityPoolId) -> bool {
    exists|i: int| 0 <= i < s.len() && (#[trigger] s[i]).1.owner == who && s[i].1.pool == pool
}

/// The ids of the positions of `who` in `pool` in `s`, in order.
pub open spec fn ids_of(s: Seq<(PositionId, Position)>, who: AccountId, pool: LiquidityPoolId) -> Seq<PositionId>
    decreases s.len(),
{
    if s.len() == 0 {
        Seq::empty()
    } else {
        let rest = ids_of(s.drop_last(), who, pool);
        if s.last().1.owner == who && s.last().1.pool == pool {
            rest.push(s.last().0)
        } else {
            rest
        }
    }
}

/// The ids of the positions in `pool` in `s`, in order.
pub open spec fn pool_ids_of(s: Seq<(PositionId, Position)>, pool: LiquidityPoolId) -> Seq<PositionId>
    decreases s.len(),
{
    if s.len() == 0 {
        Seq::empty()
    } else {
        let rest = pool_ids_of(s.drop_last(), pool);
        if s.last().1.pool == pool {
            rest.push(s.last().0)
        } else {
            rest
        }
    }
}

/// The unrealized profit and loss with swap rates of `p` at the market price, where it can be
/// computed and fits.
pub open spec fn loss_candidate(pools: MarginLiquidityPools, prices: Prices, p: Position) -> Option<i128> {
    let u = spec_unrealized_pl_and_price(pools, prices, p, None);
    let a = spec_accumulated_swap_rate_of_position(pools, prices, p);
    if u is Ok && a is Ok && fits(u->Ok_0.0 + a->Ok_0) {
        Some((u->Ok_0.0 + a->Ok_0) as i128)
    } else {
        None
    }
}

/// The positions of `who` in `pool` in `s` whose unrealized profit and loss with swap rates
/// can be computed, in order, with that amount.
pub open spec fn candidates_of(
    s: Seq<(PositionId, Position)>,
    pools: MarginLiquidityPools,
    prices: Prices,
    who: AccountId,
    pool: LiquidityPoolId,
) -> Seq<(PositionId, Fixed)>
    decreases s.len(),
{
    if s.len() == 0 {
        Seq::empty()
    } else {
        let rest = candidates_of(s.drop_last(), pools, prices, who, pool);
        let p = s.last().1;
        if p.owner == who && p.pool == pool && loss_candidate(pools, prices, p) is Some {
            rest.push((s.last().0, Fixed { inner: loss_candidate(pools, prices, p)->0 }))
        } else {
            rest
        }
    }
}

/// The error of the protocol for a position the pool does not accept.
pub open spec fn open_error(e: OpenPositionError) -> MarginError {
    match e {
        OpenPositionError::LeverageNotAllowedInPool => MarginError::LeverageNotAllowedInPool,
        OpenPositionError::TradingPairNotEnabled => MarginError::TradingPairNotEnabled,
        OpenPositionError::TradingPairNotEnabledInPool => MarginError::TradingPairNotEnabledInPool,
        OpenPositionError::BelowMinLeveragedAmount => MarginError::BelowMinLeveragedAmount,
    }
}

fn from_open_error(e: OpenPositionError) -> (r: MarginError)
    ensures
        r == open_error(e),
{
    match e {
        OpenPositionError::LeverageNotAllowedInPool => MarginError::LeverageNotAllowedInPool,
        OpenPositionError::TradingPairNotEnabled => MarginError::TradingPairNotEnabled,
        OpenPositionError::TradingPairNotEnabledInPool => MarginError::TradingPairNotEnabledInPool,
        OpenPositionError::BelowMinLeveragedAmount => MarginError::BelowMinLeveragedAmount,
    }
}

/// How closing a position settles: whether it is a profit for the trader, the amount realized,
/// the amount moved out of the pool (profit) or into it (loss), and the market price.
#[derive(Clone, Copy, Debug, PartialEq, Eq, Structural)]
pub struct Settlement {
    pub profit: bool,
    pub realized: i128,
    pub pool_amount: Balance,
    pub market_price: i128,
}

/// The entries are in ascending order of their second component.
pub open spec fn sorted_by_amount(s: Seq<(PositionId, Fixed)>) -> bool {
    forall|i: int, j: int| 0 <= i < j < s.len() ==> (#[trigger] s[i]).1.inner <= (#[trigger] s[j]).1.inner
}

/// Distinct entries of `s` with equal amounts come in `r` in the order they come in `s`.
pub open spec fn keeps_order_of_equal(s: Seq<(PositionId, Fixed)>, r: Seq<(PositionId, Fixed)>) -> bool {
    forall|i: int, j: int|
        0 <= i < j < s.len() && (#[trigger] s[i]).1.inner == (#[trigger] s[j]).1.inner && s[i] != s[j] ==> exists|
            p: int,
            q: int,
        | 0 <= p < q < r.len() && #[trigger] r[p] == s[i] && #[trigger] r[q] == s[j]
}

/// Inserting `x` into `r` after every entry with an amount at most that of `x` keeps the
/// order of equal entries, with `x` last among them.
proof fn lemma_insert_keeps_order(
    s: Seq<(PositionId, Fixed)>,
    r: Seq<(PositionId, Fixed)>,
    x: (PositionId, Fixed),
    k: int,
)
    requires
        keeps_order_of_equal(s, r),
        forall|y: (PositionId, Fixed)| #[trigger] r.contains(y) <==> s.contains(y),
        0 <= k <= r.len(),
        forall|j: int| k <= j < r.len() ==> (#[trigger] r[j]).1.inner > x.1.inner,
    ensures
        keeps_order_of_equal(s.push(x), r.insert(k, x)),
{
    let s2 = s.push(x);
    let r2 = r.insert(k, x);
    assert forall|i: int, j: int|
        0 <= i < j < s2.len() && (#[trigger] s2[i]).1.inner == (#[trigger] s2[j]).1.inner && s2[i] != s2[j] implies exists|
            p: int,
            q: int,
        | 0 <= p < q < r2.len() && #[trigger] r2[p] == s2[i] && #[trigger] r2[q] == s2[j] by {
        assert(s2[i] == s[i]);
        if j < s.len() {
            assert(s2[j] == s[j]);
            let (p, q) = choose|p: int, q: int| 0 <= p < q < r.len() && #[trigger] r[p] == s[i] && #[trigger] r[q] == s[j];
            let p2 = if p < k {
                p
            } else {
                p + 1
            };
            let q2 = if q < k {
                q
            } else {
                q + 1
            };
            assert(r2[p2] == r[p]);
            assert(r2[q2] == r[q]);
        } else {
            assert(s2[j] == x);
            assert(s.contains(s[i]));
            assert(r.contains(s[i]));
            let p = choose|p: int| 0 <= p < r.len() && r[p] == s[i];
            if p >= k {
                assert(r[p].1.inner > x.1.inner);
            }
            assert(r2[p] == s[i]);
            assert(r2[k] == x);
        }
    }
}

/// Sorts by the second component, ascending; entries with equal amounts keep their order.
pub fn sort_by_amount(v: &Vec<(PositionId, Fixed)>) -> (r: Vec<(PositionId, Fixed)>)
    ensures
        r@.len() == v@.len(),
        sorted_by_amount(r@),
        forall|x: (PositionId, Fixed)| #[trigger] r@.contains(x) <==> v@.contains(x),
        r@.to_multiset() == v@.to_multiset(),
        keeps_order_of_equal(v@, r@),
{
    let mut r: Vec<(PositionId, Fixed)> = Vec::new();
    let mut i: usize = 0;
    proof {
        assert(v@.take(0) =~= Seq::<(PositionId, Fixed)>::empty());
        assert(r@ =~= Seq::<(PositionId, Fixed)>::empty());
    }
    while i < v.len()
        invariant
            i <= v@.len(),
            r@.len() == i,
            sorted_by_amount(r@),
            forall|x: (PositionId, Fixed)| #[trigger] r@.contains(x) <==> v@.take(i as int).contains(x),
            r@.to_multiset() == v@.take(i as int).to_multiset(),
            keeps_order_of_equal(v@.take(i as int), r@),
        decreases v@.len() - i,
    {
        let x = v[i];
        let mut k = r.len();
        while k > 0 && r[k - 1].1.inner > x.1.inner
            invariant
                k <= r@.len(),
                sorted_by_amount(r@),
                forall|j: int| k <= j < r@.len() ==> (#[trigger] r@[j]).1.inner > x.1.inner,
            decreases k,
        {
            k = k - 1;
        }
        let ghost old_r = r@;
        r.insert(k, x);
        proof {
            assert(v@.take(i + 1) =~= v@.take(i as int).push(x));
            vstd::seq_lib::to_multiset_insert(old_r, k as int, x);
            vstd::seq_lib::to_multiset_build(v@.take(i as int), x);
            lemma_insert_keeps_order(v@.take(i as int), old_r, x, k as int);
        }
        proof {
            let n = r@;
            assert forall|j: int| 0 <= j < n.len() implies #[trigger] n[j] == if j < k {
                old_r[j]
            } else if j == k {
                x
            } else {
                old_r[j - 1]
            } by {}
            assert forall|a: int, b: int| 0 <= a < b < n.len() implies (#[trigger] n[a]).1.inner <= (#[trigger] n[b]).1.inner by {
                if a < k && b == k {
                    if k > 0 {
                        assert(old_r[k - 1].1.inner <= x.1.inner);
                        assert(old_r[a].1.inner <= old_r[k - 1].1.inner);
                    }
                }
            }
            assert(v@.take(i + 1) =~= v@.take(i as int).push(x));
            assert forall|y: (PositionId, Fixed)| #[trigger] n.contains(y) <==> v@.take(i + 1).contains(y) by {
                if n.contains(y) {
                    let j = choose|j: int| 0 <= j < n.len() && n[j] == y;
                    if j < k {
                        assert(old_r.contains(y));
                    } else if j > k {
                        assert(old_r[j - 1] == y);
                        assert(old_r.contains(y));
                    }
                    if y != x {
                        assert(old_r.contains(y));
                        assert(v@.take(i as int).contains(y));
                        let m = choose|m: int| 0 <= m < i && #[trigger] v@.take(i as int)[m] == y;
                        assert(v@.take(i + 1)[m] == y);
                    } else {
                        assert(v@.take(i + 1)[i as int] == x);
                    }
                }
                if v@.take(i + 1).contains(y) {
                    if y == x {
                        assert(n[k as int] == x);
                    } else {
                        let m = choose|m: int| 0 <= m < i + 1 && #[trigger] v@.take(i + 1)[m] == y;
                        assert(m < i);
                        assert(v@.take(i as int)[m] == y);
                        assert(old_r.contains(y));
                        let j = choose|j: int| 0 <= j < old_r.len() && old_r[j] == y;
                        if j < k {
                            assert(n[j] == y);
                        } else {
                            assert(n[j + 1] == y);
                        }
                    }
                }
            }
        }
        i = i + 1;
    }
    proof {
        assert(v@.take(v@.len() as int) =~= v@);
    }
    r
}

/// What the state of a trader in a pool is reported as.
#[derive(Clone, Copy, Debug, PartialEq, Eq, Structural)]
pub struct MarginTraderState {
    pub equity: Fixed,
    pub margin_held: Fixed,
    pub margin_level: Fixed,
    pub free_margin: Fixed,
    pub unrealized_pl: Fixed,
}

/// What the state of a pool is reported as.
#[derive(Clone, Copy, Debug, PartialEq, Eq, Structural)]
pub struct MarginPoolState {
    pub enp: Fixed,
    pub ell: Fixed,
    pub required_deposit: Fixed,
}

/// The value of a computation, or zero where it fails.
pub open spec fn or_zero(r: Result<i128, MarginError>) -> i128 {
    match r {
        Ok(v) => v,
        Err(_) => 0,
    }
}

/// A call the off-chain worker submits.
#[derive(Clone, Copy, Debug, PartialEq, Eq, Structural)]
pub enum OffchainCall {
    TraderMarginCall(AccountId, LiquidityPoolId),
    TraderBecomeSafe(AccountId, LiquidityPoolId),
    TraderStopOut(AccountId, LiquidityPoolId),
    LiquidityPoolMarginCall(LiquidityPoolId),
    LiquidityPoolBecomeSafe(LiquidityPoolId),
    LiquidityPoolForceClose(LiquidityPoolId),
}

/// Errors of the off-chain worker.
#[derive(Clone, Copy, Debug, PartialEq, Eq, Structural)]
pub enum OffchainErr {
    OffchainLock,
    SubmitTransaction,
    NotValidator,
    CheckFail,
}

impl OffchainErr {
    /// What went wrong, in words.
    pub fn message(&self) -> (r: &'static str)
        ensures
            r@ == match self {
                OffchainErr::OffchainLock => "Failed to get or extend lock"@,
                OffchainErr::SubmitTransaction => "Failed to submit transaction"@,
                OffchainErr::NotValidator => "Not validator"@,
                OffchainErr::CheckFail => "Check fail"@,
            },
    {
        match self {
            OffchainErr::OffchainLock => "Failed to get or extend lock",
            OffchainErr::SubmitTransaction => "Failed to submit transaction",
            OffchainErr::NotValidator => "Not validator",
            OffchainErr::CheckFail => "Check fail",
        }
    }
}

/// Lexicographic order of `(trader, pool)` pairs.
pub open spec fn trader_pool_lt(a: (AccountId, LiquidityPoolId), b: (AccountId, LiquidityPoolId)) -> bool {
    a.0 < b.0 || (a.0 == b.0 && a.1 < b.1)
}

/// The call for a trader at `risk`: stop out, margin call if not yet, or become safe if
/// margin called.
pub open spec fn spec_trader_call(risk: Risk, called: bool, who: AccountId, pool: LiquidityPoolId) -> Option<OffchainCall> {
    match risk {
        Risk::StopOut => Some(OffchainCall::TraderStopOut(who, pool)),
        Risk::MarginCall => if !called {
            Some(OffchainCall::TraderMarginCall(who, pool))
        } else {
            None
        },
        Risk::Safe => if called {
            Some(OffchainCall::TraderBecomeSafe(who, pool))
        } else {
            None
        },
    }
}

/// The call for a pool at `risk`: force close, margin call if not yet, or become safe if
/// margin called.
pub open spec fn spec_pool_call(risk: Risk, called: bool, pool: LiquidityPoolId) -> Option<OffchainCall> {
    match risk {
        Risk::StopOut => Some(OffchainCall::LiquidityPoolForceClose(pool)),
        Risk::MarginCall => if !called {
            Some(OffchainCall::LiquidityPoolMarginCall(pool))
        } else {
            None
        },
        Risk::Safe => if called {
            Some(OffchainCall::LiquidityPoolBecomeSafe(pool))
        } else {
            None
        },
    }
}

/// The call for a trader is none exactly when nothing is to be done: the trader is at margin
/// call risk and already margin called, or safe and not margin called. A stop out is asked at
/// stop out risk, a margin call only of a trader not yet margin called, and a become safe only
/// of a safe trader that is margin called.
pub proof fn lemma_trader_call_only_when_needed(risk: Risk, called: bool, who: AccountId, pool: LiquidityPoolId)
    ensures
        spec_trader_call(risk, called, who, pool) is None <==> (risk == Risk::MarginCall && called) || (risk
            == Risk::Safe && !called),
        spec_trader_call(risk, called, who, pool) == Some(OffchainCall::TraderMarginCall(who, pool)) ==> risk
            == Risk::MarginCall && !called,
        spec_trader_call(risk, called, who, pool) == Some(OffchainCall::TraderBecomeSafe(who, pool)) ==> risk
            == Risk::Safe && called,
        spec_trader_call(risk, called, who, pool) == Some(OffchainCall::TraderStopOut(who, pool)) <==> risk
            == Risk::StopOut,
        spec_trader_call(risk, called, who, pool) is Some ==> ({
            let c = spec_trader_call(risk, called, who, pool)->0;
            c == OffchainCall::TraderMarginCall(who, pool) || c == OffchainCall::TraderBecomeSafe(who, pool) || c
                == OffchainCall::TraderStopOut(who, pool)
        }),
{
}

/// The call for a pool is none exactly when nothing is to be done: the pool is at margin call
/// risk and already margin called, or safe and not margin called. A force close is asked at
/// stop out risk, a margin call only of a pool not yet margin called, and a become safe only of
/// a safe pool that is margin called.
pub proof fn lemma_pool_call_only_when_needed(risk: Risk, called: bool, pool: LiquidityPoolId)
    ensures
        spec_pool_call(risk, called, pool) is None <==> (risk == Risk::MarginCall && called) || (risk == Risk::Safe
            && !called),
        spec_pool_call(risk, called, pool) == Some(OffchainCall::LiquidityPoolMarginCall(pool)) ==> risk
            == Risk::MarginCall && !called,
        spec_pool_call(risk, called, pool) == Some(OffchainCall::LiquidityPoolBecomeSafe(pool)) ==> risk
            == Risk::Safe && called,
        spec_pool_call(risk, called, pool) == Some(OffchainCall::LiquidityPoolForceClose(pool)) <==> risk
            == Risk::StopOut,
        spec_pool_call(risk, called, pool) is Some ==> ({
            let c = spec_pool_call(risk, called, pool)->0;
            c == OffchainCall::LiquidityPoolMarginCall(pool) || c == OffchainCall::LiquidityPoolBecomeSafe(pool) || c
                == OffchainCall::LiquidityPoolForceClose(pool)
        }),
{
}

/// The margin protocol module.
pub struct MarginProtocol {
    pub(crate) next_position_id: PositionId,
    pub(crate) positions: Table<PositionId, Position>,
    pub(crate) snapshots: Table<PoolPair, PositionsSnapshot>,
    pub(crate) balances: Table<TraderPool, Fixed>,
    pub(crate) margin_called_traders: Table<TraderPool, ()>,
    pub(crate) margin_called_pools: Table<LiquidityPoolId, ()>,
    pub(crate) risk_thresholds: Table<TradingPair, TradingPairRiskThreshold>,
    pub(crate) account: AccountId,
    pub(crate) treasury: AccountId,
    pub(crate) trader_max_open_positions: usize,
    pub(crate) pool_max_open_positions: usize,
    pub(crate) update_origin: AccountId,
    pub(crate) liquidity_currency: CurrencyId,
}

/// The price of `base` in `quote`.
fn price(prices: &Prices, base: CurrencyId, quote: CurrencyId) -> (r: Result<Price, MarginError>)
    requires
        prices.wf(),
    ensures
        r == spec_price(*prices, base, quote),
{
    match prices.get_price(base, quote) {
        Some(p) => Ok(p),
        None => Err(MarginError::NoPrice),
    }
}

/// `ask_price = price + ask_spread`, at most `max` where one is given.
fn ask_price(
    pools: &MarginLiquidityPools,
    prices: &Prices,
    pool: LiquidityPoolId,
    pair: TradingPair,
    max: Option<Price>,
) -> (r: Result<Fixed, MarginError>)
    requires
        pools.wf(),
        prices.wf(),
    ensures
        r is Ok <==> spec_ask_price(*pools, *prices, pool, pair, max) is Ok,
        r is Ok ==> r->Ok_0.inner == spec_ask_price(*pools, *prices, pool, pair, max)->Ok_0,
        r is Err ==> r->Err_0 == spec_ask_price(*pools, *prices, pool, pair, max)->Err_0,
{
    let p = price(prices, pair.base, pair.quote)?;
    let spread = match pools.ask_spread(pool, pair) {
        Some(s) => s,
        None => {
            return Err(MarginError::NoAskSpread);
        },
    };
    let ask = p.saturating_add(&spread);
    if let Some(m) = max {
        if ask.inner > m.inner {
            return Err(MarginError::MarketPriceTooHigh);
        }
    }
    Ok(fixed_i128_from_fixed_u128(ask))
}

/// `bid_price = price - bid_spread`, at least `min` where one is given.
fn bid_price(
    pools: &MarginLiquidityPools,
    prices: &Prices,
    pool: LiquidityPoolId,
    pair: TradingPair,
    min: Option<Price>,
) -> (r: Result<Fixed, MarginError>)
    requires
        pools.wf(),
        prices.wf(),
    ensures
        r is Ok <==> spec_bid_price(*pools, *prices, pool, pair, min) is Ok,
        r is Ok ==> r->Ok_0.inner == spec_bid_price(*pools, *prices, pool, pair, min)->Ok_0,
        r is Err ==> r->Err_0 == spec_bid_price(*pools, *prices, pool, pair, min)->Err_0,
{
    let p = price(prices, pair.base, pair.quote)?;
    let spread = match pools.bid_spread(pool, pair) {
        Some(s) => s,
        None => {
            return Err(MarginError::NoBidSpread);
        },
    };
    let bid = p.saturating_sub(&spread);
    if let Some(m) = min {
        if bid.inner < m.inner {
            return Err(MarginError::MarketPriceTooLow);
        }
    }
    Ok(fixed_i128_from_fixed_u128(bid))
}

/// `usd_value = amount * price`, the price of `currency_id` in USD.
fn usd_value(prices: &Prices, currency_id: CurrencyId, amount: Fixed) -> (r: Result<Fixed, MarginError>)
    requires
        prices.wf(),
    ensures
        r is Ok <==> spec_usd_value(*prices, currency_id, amount.inner) is Ok,
        r is Ok ==> r->Ok_0.inner == spec_usd_value(*prices, currency_id, amount.inner)->Ok_0,
        r is Err ==> r->Err_0 == spec_usd_value(*prices, currency_id, amount.inner)->Err_0,
{
    let p = price(prices, currency_id, CurrencyId::AUSD)?;
    let pf = fixed_i128_from_fixed_u128(p);
    match amount.checked_mul(&pf) {
        Some(v) => Ok(v),
        None => Err(MarginError::NumOutOfBound),
    }
}

/// `(unrealized profit and loss in USD, current price)` of a position; the current price must
/// be within `price` where one is given.
fn unrealized_pl_and_market_price_of_position(
    pools: &MarginLiquidityPools,
    prices: &Prices,
    position: &Position,
    price: Option<Price>,
) -> (r: Result<(Fixed, Fixed), MarginError>)
    requires
        pools.wf(),
        prices.wf(),
    ensures
        r is Ok <==> spec_unrealized_pl_and_price(*pools, *prices, *position, price) is Ok,
        r is Ok ==> r->Ok_0.0.inner == spec_unrealized_pl_and_price(*pools, *prices, *position, price)->Ok_0.0
            && r->Ok_0.1.inner == spec_unrealized_pl_and_price(*pools, *prices, *position, price)->Ok_0.1,
        r is Err ==> r->Err_0 == spec_unrealized_pl_and_price(*pools, *prices, *position, price)->Err_0,
{
    let q = match position.leveraged_debits.checked_div(&position.leveraged_held) {
        Some(q) => q,
        None => {
            return Err(MarginError::NumOutOfBound);
        },
    };
    let open_price = q.saturating_abs();
    let curr_price = if position.leverage.is_long() {
        bid_price(pools, prices, position.pool, position.pair, price)?
    } else {
        ask_price(pools, prices, position.pool, position.pair, price)?
    };
    let price_delta = Fixed::from_inner(curr_price.inner - open_price.inner);
    let unrealized = match position.leveraged_held.checked_mul(&price_delta) {
        Some(u) => u,
        None => {
            return Err(MarginError::NumOutOfBound);
        },
    };
    let usd = usd_value(prices, position.pair.quote, unrealized)?;
    Ok((usd, curr_price))
}

/// Unrealized profit and loss of a position in USD, at the current market price.
pub fn unrealized_pl_of_position(pools: &MarginLiquidityPools, prices: &Prices, position: &Position) -> (r: Result<
    Fixed,
    MarginError,
>)
    requires
        pools.wf(),
        prices.wf(),
    ensures
        r is Ok <==> spec_unrealized_pl_and_price(*pools, *prices, *position, None) is Ok,
        r is Ok ==> r->Ok_0.inner == spec_unrealized_pl_and_price(*pools, *prices, *position, None)->Ok_0.0,
        r is Err ==> r->Err_0 == spec_unrealized_pl_and_price(*pools, *prices, *position, None)->Err_0,
{
    let (unrealized, _) = unrealized_pl_and_market_price_of_position(pools, prices, position, None)?;
    Ok(unrealized)
}

/// Accumulated swap rate of a position in USD.
pub fn accumulated_swap_rate_of_position(pools: &MarginLiquidityPools, prices: &Prices, position: &Position) -> (r:
    Result<Fixed, MarginError>)
    requires
        pools.wf(),
        prices.wf(),
    ensures
        r is Ok <==> spec_accumulated_swap_rate_of_position(*pools, *prices, *position) is Ok,
        r is Ok ==> r->Ok_0.inner == spec_accumulated_swap_rate_of_position(*pools, *prices, *position)->Ok_0,
        r is Err ==> r->Err_0 == spec_accumulated_swap_rate_of_position(*pools, *prices, *position)->Err_0,
{
    let current = pools.accumulated_swap_rate(position.pool, position.pair, position.leverage.is_long());
    let rate = match current.checked_sub(&position.open_accumulated_swap_rate) {
        Some(r) => r,
        None => {
            return Err(MarginError::NumOutOfBound);
        },
    };
    let acc = match position.leveraged_debits.saturating_abs().checked_mul(&rate) {
        Some(a) => a,
        None => {
            return Err(MarginError::NumOutOfBound);
        },
    };
    usd_value(prices, position.pair.quote, acc)
}

/// The term of a position in a sum over the positions of a trader.
fn position_term(pools: &MarginLiquidityPools, prices: &Prices, position: &Position, term: PositionTerm) -> (r:
    Result<Fixed, MarginError>)
    requires
        pools.wf(),
        prices.wf(),
    ensures
        r is Ok <==> spec_term(*pools, *prices, *position, term) is Ok,
        r is Ok ==> r->Ok_0.inner == spec_term(*pools, *prices, *position, term)->Ok_0,
        r is Err ==> r->Err_0 == spec_term(*pools, *prices, *position, term)->Err_0,
{
    match term {
        PositionTerm::UnrealizedPl => {
            let (u, _) = unrealized_pl_and_market_price_of_position(pools, prices, position, None)?;
            Ok(u)
        },
        PositionTerm::AccumulatedSwapRate => accumulated_swap_rate_of_position(pools, prices, position),
        PositionTerm::DebitsInUsd => usd_value(prices, position.pair.quote, position.leveraged_debits.saturating_abs()),
    }
}

impl MarginProtocol {
    pub closed spec fn wf(&self) -> bool {
        &&& self.positions.wf()
        &&& self.snapshots.wf()
        &&& self.balances.wf()
        &&& self.margin_called_traders.wf()
        &&& self.margin_called_pools.wf()
        &&& self.risk_thresholds.wf()
        &&& forall|i: int|
            0 <= i < self.positions.entries().len() ==> (#[trigger] self.positions.entries()[i]).0
                < self.next_position_id
        &&& forall|k: PoolPair| #[trigger] self.snapshots.spec_get(k) is Some ==> self.snapshots.spec_get(k)->0.positions_count
            == count_in(self.positions.entries(), k.pool, k.pair)
        &&& forall|k: PoolPair|
            count_in(self.positions.entries(), k.pool, k.pair) > 0 ==> #[trigger] self.snapshots.spec_get(k) is Some
        &&& forall|i: int|
            0 <= i < self.positions.entries().len() ==> signs_ok((#[trigger] self.positions.entries()[i]).1)
        &&& forall|k: PoolPair| #[trigger] self.snapshots.spec_get(k) is Some ==> totals_match(
            self.snapshots.spec_get(k)->0,
            self.positions.entries(),
            k.pool,
            k.pair,
        )
    }

    /// Open positions with their ids, in the order they were opened.
    pub closed spec fn spec_positions(&self) -> Seq<(PositionId, Position)> {
        self.positions.entries()
    }

    /// The open position `id`.
    pub closed spec fn position(&self, id: PositionId) -> Option<Position> {
        self.positions.spec_get(id)
    }

    /// The snapshot of `pair` in `pool`.
    pub closed spec fn snapshot(&self, pool: LiquidityPoolId, pair: TradingPair) -> PositionsSnapshot {
        match self.snapshots.spec_get(PoolPair { pool, pair }) {
            Some(s) => s,
            None => empty_snapshot(),
        }
    }

    /// Stored snapshots, in the order their pairs first had a position in the pool.
    pub closed spec fn snapshot_entries(&self) -> Seq<(PoolPair, PositionsSnapshot)> {
        self.snapshots.entries()
    }

    /// The balance of `who` in `pool`: what it may use if positive, what it owes the pool if
    /// negative.
    pub closed spec fn balance(&self, who: AccountId, pool: LiquidityPoolId) -> i128 {
        match self.balances.spec_get(TraderPool { who, pool }) {
            Some(b) => b.inner,
            None => 0,
        }
    }

    pub closed spec fn trader_margin_called(&self, who: AccountId, pool: LiquidityPoolId) -> bool {
        self.margin_called_traders.spec_contains(TraderPool { who, pool })
    }

    pub closed spec fn pool_margin_called(&self, pool: LiquidityPoolId) -> bool {
        self.margin_called_pools.spec_contains(pool)
    }

    /// Risk thresholds of `pair`.
    pub closed spec fn thresholds(&self, pair: TradingPair) -> TradingPairRiskThreshold {
        match self.risk_thresholds.spec_get(pair) {
            Some(t) => t,
            None => no_thresholds(),
        }
    }

    pub closed spec fn spec_next_position_id(&self) -> PositionId {
        self.next_position_id
    }

    /// The account holding the margin of all traders.
    pub closed spec fn spec_account(&self) -> AccountId {
        self.account
    }

    pub closed spec fn spec_treasury(&self) -> AccountId {
        self.treasury
    }

    pub closed spec fn spec_trader_max(&self) -> usize {
        self.trader_max_open_positions
    }

    pub closed spec fn spec_pool_max(&self) -> usize {
        self.pool_max_open_positions
    }

    pub closed spec fn spec_update_origin(&self) -> AccountId {
        self.update_origin
    }

    /// The currency of margin.
    pub closed spec fn spec_currency(&self) -> CurrencyId {
        self.liquidity_currency
    }

    /// The pairs and pools of the stored snapshots, in order.
    pub closed spec fn snapshot_keys(&self) -> Seq<PoolPair> {
        self.snapshots.keys()
    }

    /// Risk thresholds as a function of the pair.
    pub open spec fn threshold_of(&self) -> spec_fn(TradingPair) -> TradingPairRiskThreshold {
        |q: TradingPair| self.thresholds(q)
    }

    /// Sum of `term` over the positions of `who` in `pool`.
    pub open spec fn spec_trader_sum(
        &self,
        pools: MarginLiquidityPools,
        prices: Prices,
        who: AccountId,
        pool: LiquidityPoolId,
        term: PositionTerm,
    ) -> Result<i128, MarginError> {
        try_fold(self.spec_positions(), 0i128, term_step(pools, prices, who, pool, term))
    }

    /// Sum of margin held of the positions of `who` in `pool`, saturating.
    pub open spec fn spec_margin_held(&self, who: AccountId, pool: LiquidityPoolId) -> i128 {
        try_fold(self.spec_positions(), 0i128, margin_step(who, pool))->Ok_0
    }

    /// `equity = balance + unrealized_pl + accumulated_swap_rate` of `who` in `pool`.
    pub open spec fn spec_equity(&self, pools: MarginLiquidityPools, prices: Prices, who: AccountId, pool: LiquidityPoolId) -> Result<
        i128,
        MarginError,
    > {
        match self.spec_trader_sum(pools, prices, who, pool, PositionTerm::UnrealizedPl) {
            Err(e) => Err(e),
            Ok(u) => {
                let b = self.balance(who, pool) + u;
                if !fits(b) {
                    Err(MarginError::NumOutOfBound)
                } else {
                    match self.spec_trader_sum(pools, prices, who, pool, PositionTerm::AccumulatedSwapRate) {
                        Err(e) => Err(e),
                        Ok(a) => if fits(b + a) {
                            Ok((b + a) as i128)
                        } else {
                            Err(MarginError::NumOutOfBound)
                        },
                    }
                }
            },
        }
    }

    /// `free_margin = equity - margin_held`, saturating.
    pub open spec fn spec_free_margin(&self, pools: MarginLiquidityPools, prices: Prices, who: AccountId, pool: LiquidityPoolId) -> Result<
        i128,
        MarginError,
    > {
        match self.spec_equity(pools, prices, who, pool) {
            Err(e) => Err(e),
            Ok(eq) => Ok(spec_saturate_i128(eq - self.spec_margin_held(who, pool))),
        }
    }

    /// `margin_level = equity / leveraged_debits_in_usd`; the maximum where it is undefined.
    pub open spec fn spec_margin_level(&self, pools: MarginLiquidityPools, prices: Prices, who: AccountId, pool: LiquidityPoolId) -> Result<
        i128,
        MarginError,
    > {
        match self.spec_equity(pools, prices, who, pool) {
            Err(e) => Err(e),
            Ok(eq) => match self.spec_trader_sum(pools, prices, who, pool, PositionTerm::DebitsInUsd) {
                Err(e) => Err(e),
                Ok(d) => Ok(
                    match spec_fixed_div(eq, d) {
                        Some(v) => v,
                        None => i128::MAX,
                    },
                ),
            },
        }
    }

    /// The largest trader thresholds of the pairs of the positions of `who` in `pool`.
    pub open spec fn spec_trader_threshold(&self, who: AccountId, pool: LiquidityPoolId) -> RiskThreshold {
        try_fold(self.spec_positions(), zero_threshold(), threshold_step(self.threshold_of(), who, pool))->Ok_0
    }

    /// The trader threshold of the pair of a position about to be opened, if any.
    pub open spec fn action_trader_threshold(&self, action: Action) -> RiskThreshold {
        match action {
            Action::OpenPosition(p) => match self.thresholds(p.pair).trader {
                Some(t) => t,
                None => zero_threshold(),
            },
            _ => zero_threshold(),
        }
    }

    /// The risk of `who` in `pool`, against the larger of its thresholds and those of a
    /// position about to be opened.
    pub open spec fn spec_check_trader(
        &self,
        pools: MarginLiquidityPools,
        prices: Prices,
        who: AccountId,
        pool: LiquidityPoolId,
        action: Action,
    ) -> Result<Risk, MarginError> {
        match self.spec_margin_level(pools, prices, who, pool) {
            Err(e) => Err(e),
            Ok(ml) => {
                let t = self.spec_trader_threshold(who, pool);
                let n = self.action_trader_threshold(action);
                if ml <= permill_fixed(pmax(t.stop_out, n.stop_out)) {
                    Ok(Risk::StopOut)
                } else if ml <= permill_fixed(pmax(t.margin_call, n.margin_call)) {
                    Ok(Risk::MarginCall)
                } else {
                    Ok(Risk::Safe)
                }
            },
        }
    }

    /// Only balances may differ.
    pub open spec fn same_except_balances(&self, other: &MarginProtocol) -> bool {
        &&& other.spec_positions() == self.spec_positions()
        &&& forall|id: PositionId| #[trigger] other.position(id) == self.position(id)
        &&& other.snapshot_entries() == self.snapshot_entries()
        &&& forall|pool: LiquidityPoolId, pair: TradingPair| #[trigger] other.snapshot(pool, pair) == self.snapshot(pool, pair)
        &&& forall|w: AccountId, pool: LiquidityPoolId| #[trigger] other.trader_margin_called(w, pool)
            == self.trader_margin_called(w, pool)
        &&& forall|pool: LiquidityPoolId| #[trigger] other.pool_margin_called(pool) == self.pool_margin_called(pool)
        &&& forall|pair: TradingPair| #[trigger] other.thresholds(pair) == self.thresholds(pair)
        &&& other.spec_next_position_id() == self.spec_next_position_id()
        &&& other.spec_account() == self.spec_account()
        &&& other.spec_treasury() == self.spec_treasury()
        &&& other.spec_trader_max() == self.spec_trader_max()
        &&& other.spec_pool_max() == self.spec_pool_max()
        &&& other.spec_update_origin() == self.spec_update_origin()
        &&& other.spec_currency() == self.spec_currency()
        &&& other.snapshot_keys() == self.snapshot_keys()
    }

    /// Only the balance of `who` in `pool` may differ.
    pub open spec fn same_except_balance(&self, other: &MarginProtocol, who: AccountId, pool: LiquidityPoolId) -> bool {
        &&& self.same_except_balances(other)
        &&& forall|w: AccountId, p: LiquidityPoolId|
            !(w == who && p == pool) ==> #[trigger] other.balance(w, p) == self.balance(w, p)
    }

    /// A protocol with no positions. `account` holds the margin of traders, `treasury`
    /// receives the penalties of force closed positions.
    pub fn new(
        account: AccountId,
        treasury: AccountId,
        trader_max_open_positions: usize,
        pool_max_open_positions: usize,
        update_origin: AccountId,
        liquidity_currency: CurrencyId,
    ) -> (r: MarginProtocol)
        ensures
            r.wf(),
            r.spec_positions() == Seq::<(PositionId, Position)>::empty(),
            r.snapshot_entries() == Seq::<(PoolPair, PositionsSnapshot)>::empty(),
            forall|id: PositionId| #[trigger] r.position(id) is None,
            forall|w: AccountId, p: LiquidityPoolId| #[trigger] r.balance(w, p) == 0,
            forall|w: AccountId, p: LiquidityPoolId| !#[trigger] r.trader_margin_called(w, p),
            forall|p: LiquidityPoolId| !#[trigger] r.pool_margin_called(p),
            forall|q: TradingPair| #[trigger] r.thresholds(q) == no_thresholds(),
            r.spec_next_position_id() == 0,
            r.spec_account() == account,
            r.spec_treasury() == treasury,
            r.spec_trader_max() == trader_max_open_positions,
            r.spec_pool_max() == pool_max_open_positions,
            r.spec_update_origin() == update_origin,
            r.spec_currency() == liquidity_currency,
    {
        MarginProtocol {
            next_position_id: 0,
            positions: Table::new(),
            snapshots: Table::new(),
            balances: Table::new(),
            margin_called_traders: Table::new(),
            margin_called_pools: Table::new(),
            risk_thresholds: Table::new(),
            account,
            treasury,
            trader_max_open_positions,
            pool_max_open_positions,
            update_origin,
            liquidity_currency,
        }
    }

    /// The account holding the margin of all traders.
    pub fn account_id(&self) -> (r: AccountId)
        ensures
            r == self.spec_account(),
    {
        self.account
    }

    pub fn next_position_id(&self) -> (r: PositionId)
        ensures
            r == self.spec_next_position_id(),
    {
        self.next_position_id
    }

    /// Moves the next position id forward to `id`; nothing else changes.
    pub fn set_next_position_id(&mut self, id: PositionId)
        requires
            old(self).wf(),
            id >= old(self).spec_next_position_id(),
        ensures
            final(self).wf(),
            final(self).spec_next_position_id() == id,
            final(self).spec_positions() == old(self).spec_positions(),
            forall|j: PositionId| #[trigger] final(self).position(j) == old(self).position(j),
            final(self).snapshot_entries() == old(self).snapshot_entries(),
            forall|pool: LiquidityPoolId, q: TradingPair| #[trigger] final(self).snapshot(pool, q)
                == old(self).snapshot(pool, q),
            final(self).snapshot_keys() == old(self).snapshot_keys(),
            forall|w: AccountId, p: LiquidityPoolId| #[trigger] final(self).balance(w, p) == old(self).balance(w, p),
            forall|w: AccountId, p: LiquidityPoolId| #[trigger] final(self).trader_margin_called(w, p)
                == old(self).trader_margin_called(w, p),
            forall|p: LiquidityPoolId| #[trigger] final(self).pool_margin_called(p) == old(self).pool_margin_called(p),
            forall|q: TradingPair| #[trigger] final(self).thresholds(q) == old(self).thresholds(q),
            final(self).same_config(&*old(self)),
    {
        self.next_position_id = id;
    }

    /// The open position `id`, if any.
    pub fn positions(&self, id: PositionId) -> (r: Option<Position>)
        requires
            self.wf(),
        ensures
            r == self.position(id),
    {
        self.positions.get_copy(&id)
    }

    /// The snapshot of `pair` in `pool`.
    pub fn pool_positions_snapshots(&self, pool: LiquidityPoolId, pair: TradingPair) -> (r: PositionsSnapshot)
        requires
            self.wf(),
        ensures
            r == self.snapshot(pool, pair),
    {
        match self.snapshots.get_copy(&PoolPair { pool, pair }) {
            Some(s) => s,
            None => PositionsSnapshot {
                positions_count: 0,
                long: LeveragedAmounts { held: Fixed::zero(), debits: Fixed::zero() },
                short: LeveragedAmounts { held: Fixed::zero(), debits: Fixed::zero() },
            },
        }
    }

    /// The balance of `who` in `pool`.
    pub fn balances(&self, who: AccountId, pool: LiquidityPoolId) -> (r: Fixed)
        requires
            self.wf(),
        ensures
            r.inner == self.balance(who, pool),
    {
        match self.balances.get_copy(&TraderPool { who, pool }) {
            Some(b) => b,
            None => Fixed::zero(),
        }
    }

    pub fn is_trader_margin_called(&self, who: AccountId, pool: LiquidityPoolId) -> (r: bool)
        requires
            self.wf(),
        ensures
            r == self.trader_margin_called(who, pool),
    {
        self.margin_called_traders.contains(&TraderPool { who, pool })
    }

    pub fn is_pool_margin_called(&self, pool: LiquidityPoolId) -> (r: bool)
        requires
            self.wf(),
        ensures
            r == self.pool_margin_called(pool),
    {
        self.margin_called_pools.contains(&pool)
    }

    /// Risk thresholds of `pair`.
    pub fn risk_thresholds(&self, pair: TradingPair) -> (r: TradingPairRiskThreshold)
        requires
            self.wf(),
        ensures
            r == self.thresholds(pair),
    {
        match self.risk_thresholds.get_copy(&pair) {
            Some(t) => t,
            None => TradingPairRiskThreshold { trader: None, enp: None, ell: None },
        }
    }

    pub fn trader_risk_threshold(&self, pair: TradingPair) -> (r: Option<RiskThreshold>)
        requires
            self.wf(),
        ensures
            r == self.thresholds(pair).trader,
    {
        self.risk_thresholds(pair).trader
    }

    pub fn liquidity_pool_enp_threshold(&self, pair: TradingPair) -> (r: Option<RiskThreshold>)
        requires
            self.wf(),
        ensures
            r == self.thresholds(pair).enp,
    {
        self.risk_thresholds(pair).enp
    }

    pub fn liquidity_pool_ell_threshold(&self, pair: TradingPair) -> (r: Option<RiskThreshold>)
        requires
            self.wf(),
        ensures
            r == self.thresholds(pair).ell,
    {
        self.risk_thresholds(pair).ell
    }

    /// Sets the thresholds of `pair` that are given; the others stay. May only be called from
    /// the update origin.
    pub fn set_trading_pair_risk_threshold(
        &mut self,
        origin: AccountId,
        pair: TradingPair,
        trader: Option<RiskThreshold>,
        enp: Option<RiskThreshold>,
        ell: Option<RiskThreshold>,
    ) -> (r: Result<(), DispatchError>)
        requires
            old(self).wf(),
        ensures
            final(self).wf(),
            r is Ok <==> origin == old(self).spec_update_origin(),
            r is Err ==> r == Err::<(), DispatchError>(DispatchError::BadOrigin) && *final(self) == *old(self),
            r is Ok ==> final(self).thresholds(pair) == (TradingPairRiskThreshold {
                trader: if trader is Some {
                    trader
                } else {
                    old(self).thresholds(pair).trader
                },
                enp: if enp is Some {
                    enp
                } else {
                    old(self).thresholds(pair).enp
                },
                ell: if ell is Some {
                    ell
                } else {
                    old(self).thresholds(pair).ell
                },
            }),
            forall|q: TradingPair| q != pair ==> #[trigger] final(self).thresholds(q) == old(self).thresholds(q),
            final(self).spec_positions() == old(self).spec_positions(),
            forall|id: PositionId| #[trigger] final(self).position(id) == old(self).position(id),
            final(self).snapshot_entries() == old(self).snapshot_entries(),
            forall|pool: LiquidityPoolId, q: TradingPair| #[trigger] final(self).snapshot(pool, q)
                == old(self).snapshot(pool, q),
            forall|w: AccountId, p: LiquidityPoolId| #[trigger] final(self).balance(w, p) == old(self).balance(w, p),
            forall|w: AccountId, p: LiquidityPoolId| #[trigger] final(self).trader_margin_called(w, p)
                == old(self).trader_margin_called(w, p),
            forall|p: LiquidityPoolId| #[trigger] final(self).pool_margin_called(p) == old(self).pool_margin_called(p),
            final(self).spec_next_position_id() == old(self).spec_next_position_id(),
            final(self).same_config(&*old(self)),
    {
        if origin != self.update_origin {
            return Err(DispatchError::BadOrigin);
        }
        let mut t = self.risk_thresholds(pair);
        if trader.is_some() {
            t.trader = trader;
        }
        if enp.is_some() {
            t.enp = enp;
        }
        if ell.is_some() {
            t.ell = ell;
        }
        self.risk_thresholds.insert(pair, t);
        Ok(())
    }

    /// Sum of `term` over the positions of `who` in `pool`.
    fn trader_sum(
        &self,
        pools: &MarginLiquidityPools,
        prices: &Prices,
        who: AccountId,
        pool: LiquidityPoolId,
        term: PositionTerm,
    ) -> (r: Result<Fixed, MarginError>)
        requires
            self.wf(),
            pools.wf(),
            prices.wf(),
        ensures
            r is Ok <==> self.spec_trader_sum(*pools, *prices, who, pool, term) is Ok,
            r is Ok ==> r->Ok_0.inner == self.spec_trader_sum(*pools, *prices, who, pool, term)->Ok_0,
            r is Err ==> r->Err_0 == self.spec_trader_sum(*pools, *prices, who, pool, term)->Err_0,
    {
        let ghost s = self.spec_positions();
        let ghost f = term_step(*pools, *prices, who, pool, term);
        let n = self.positions.len();
        let mut acc = Fixed::zero();
        let mut i: usize = 0;
        while i < n
            invariant
                self.wf(),
                pools.wf(),
                prices.wf(),
                s == self.spec_positions(),
                f == term_step(*pools, *prices, who, pool, term),
                n == s.len(),
                i <= n,
                try_fold(s.take(i as int), 0i128, f) == Ok::<i128, MarginError>(acc.inner),
            decreases n - i,
        {
            let p = *self.positions.value_at(i);
            proof {
                lemma_try_fold_step(s, 0i128, f, i as int);
            }
            if p.owner == who && p.pool == pool {
                match position_term(pools, prices, &p, term) {
                    Err(e) => {
                        proof {
                            lemma_try_fold_err(s, 0i128, f, i + 1);
                        }
                        return Err(e);
                    },
                    Ok(x) => match acc.checked_add(&x) {
                        Some(v) => {
                            acc = v;
                        },
                        None => {
                            proof {
                                lemma_try_fold_err(s, 0i128, f, i + 1);
                            }
                            return Err(MarginError::NumOutOfBound);
                        },
                    },
                }
            }
            i = i + 1;
        }
        proof {
            lemma_take_all(s);
        }
        Ok(acc)
    }

    /// Unrealized profit and loss of `who` in `pool` in USD: the sum over its positions.
    pub fn unrealized_pl_of_trader(
        &self,
        pools: &MarginLiquidityPools,
        prices: &Prices,
        who: AccountId,
        pool_id: LiquidityPoolId,
    ) -> (r: Result<Fixed, DispatchError>)
        requires
            self.wf(),
            pools.wf(),
            prices.wf(),
        ensures
            ({
                let s = self.spec_trader_sum(*pools, *prices, who, pool_id, PositionTerm::UnrealizedPl);
                &&& r is Ok <==> s is Ok
                &&& r is Ok ==> r->Ok_0.inner == s->Ok_0
                &&& r is Err ==> r->Err_0 == DispatchError::MarginProtocol(s->Err_0)
            }),
    {
        match self.trader_sum(pools, prices, who, pool_id, PositionTerm::UnrealizedPl) {
            Ok(v) => Ok(v),
            Err(e) => Err(merr(e)),
        }
    }

    /// Sum of margin held of the positions of `who` in `pool`, saturating.
    pub fn margin_held(&self, who: AccountId, pool_id: LiquidityPoolId) -> (r: Fixed)
        requires
            self.wf(),
        ensures
            r.inner == self.spec_margin_held(who, pool_id),
    {
        let ghost s = self.spec_positions();
        let ghost f = margin_step(who, pool_id);
        let n = self.positions.len();
        let mut acc = Fixed::zero();
        let mut i: usize = 0;
        while i < n
            invariant
                self.wf(),
                s == self.spec_positions(),
                f == margin_step(who, pool_id),
                n == s.len(),
                i <= n,
                try_fold(s.take(i as int), 0i128, f) == Ok::<i128, MarginError>(acc.inner),
            decreases n - i,
        {
            let p = *self.positions.value_at(i);
            proof {
                lemma_try_fold_step(s, 0i128, f, i as int);
            }
            if p.owner == who && p.pool == pool_id {
                acc = acc.saturating_add(&p.margin_held);
            }
            i = i + 1;
        }
        proof {
            lemma_take_all(s);
        }
        acc
    }

    /// Accumulated swap rate of `who` in `pool` in USD: the sum over its positions.
    pub fn accumulated_swap_rate_of_trader(
        &self,
        pools: &MarginLiquidityPools,
        prices: &Prices,
        who: AccountId,
        pool_id: LiquidityPoolId,
    ) -> (r: Result<Fixed, MarginError>)
        requires
            self.wf(),
            pools.wf(),
            prices.wf(),
        ensures
            r is Ok <==> self.spec_trader_sum(*pools, *prices, who, pool_id, PositionTerm::AccumulatedSwapRate) is Ok,
            r is Ok ==> r->Ok_0.inner == self.spec_trader_sum(
                *pools,
                *prices,
                who,
                pool_id,
                PositionTerm::AccumulatedSwapRate,
            )->Ok_0,
            r is Err ==> r->Err_0 == self.spec_trader_sum(
                *pools,
                *prices,
                who,
                pool_id,
                PositionTerm::AccumulatedSwapRate,
            )->Err_0,
    {
        self.trader_sum(pools, prices, who, pool_id, PositionTerm::AccumulatedSwapRate)
    }

    fn equity(&self, pools: &MarginLiquidityPools, prices: &Prices, who: AccountId, pool_id: LiquidityPoolId) -> (r:
        Result<Fixed, MarginError>)
        requires
            self.wf(),
            pools.wf(),
            prices.wf(),
        ensures
            r is Ok <==> self.spec_equity(*pools, *prices, who, pool_id) is Ok,
            r is Ok ==> r->Ok_0.inner == self.spec_equity(*pools, *prices, who, pool_id)->Ok_0,
            r is Err ==> r->Err_0 == self.spec_equity(*pools, *prices, who, pool_id)->Err_0,
    {
        let unrealized = self.trader_sum(pools, prices, who, pool_id, PositionTerm::UnrealizedPl)?;
        let with_unrealized = match self.balances(who, pool_id).checked_add(&unrealized) {
            Some(v) => v,
            None => {
                return Err(MarginError::NumOutOfBound);
            },
        };
        let acc = self.trader_sum(pools, prices, who, pool_id, PositionTerm::AccumulatedSwapRate)?;
        match with_unrealized.checked_add(&acc) {
            Some(v) => Ok(v),
            None => Err(MarginError::NumOutOfBound),
        }
    }

    /// `equity = balance + unrealized_pl + accumulated_swap_rate` of `who` in `pool`.
    pub fn equity_of_trader(
        &self,
        pools: &MarginLiquidityPools,
        prices: &Prices,
        who: AccountId,
        pool_id: LiquidityPoolId,
    ) -> (r: Result<Fixed, DispatchError>)
        requires
            self.wf(),
            pools.wf(),
            prices.wf(),
        ensures
            ({
                let s = self.spec_equity(*pools, *prices, who, pool_id);
                &&& r is Ok <==> s is Ok
                &&& r is Ok ==> r->Ok_0.inner == s->Ok_0
                &&& r is Err ==> r->Err_0 == DispatchError::MarginProtocol(s->Err_0)
            }),
    {
        match self.equity(pools, prices, who, pool_id) {
            Ok(v) => Ok(v),
            Err(e) => Err(merr(e)),
        }
    }

    fn free(&self, pools: &MarginLiquidityPools, prices: &Prices, who: AccountId, pool_id: LiquidityPoolId) -> (r:
        Result<Fixed, MarginError>)
        requires
            self.wf(),
            pools.wf(),
            prices.wf(),
        ensures
            r is Ok <==> self.spec_free_margin(*pools, *prices, who, pool_id) is Ok,
            r is Ok ==> r->Ok_0.inner == self.spec_free_margin(*pools, *prices, who, pool_id)->Ok_0,
            r is Err ==> r->Err_0 == self.spec_free_margin(*pools, *prices, who, pool_id)->Err_0,
    {
        let equity = self.equity(pools, prices, who, pool_id)?;
        let held = self.margin_held(who, pool_id);
        Ok(equity.saturating_sub(&held))
    }

    /// Free margin of `who` in `pool`: `equity - margin_held`.
    pub fn free_margin(&self, pools: &MarginLiquidityPools, prices: &Prices, who: AccountId, pool_id: LiquidityPoolId) -> (r:
        Result<Fixed, DispatchError>)
        requires
            self.wf(),
            pools.wf(),
            prices.wf(),
        ensures
            ({
                let s = self.spec_free_margin(*pools, *prices, who, pool_id);
                &&& r is Ok <==> s is Ok
                &&& r is Ok ==> r->Ok_0.inner == s->Ok_0
                &&& r is Err ==> r->Err_0 == DispatchError::MarginProtocol(s->Err_0)
            }),
    {
        match self.free(pools, prices, who, pool_id) {
            Ok(v) => Ok(v),
            Err(e) => Err(merr(e)),
        }
    }

    fn level(&self, pools: &MarginLiquidityPools, prices: &Prices, who: AccountId, pool_id: LiquidityPoolId) -> (r:
        Result<Fixed, MarginError>)
        requires
            self.wf(),
            pools.wf(),
            prices.wf(),
        ensures
            r is Ok <==> self.spec_margin_level(*pools, *prices, who, pool_id) is Ok,
            r is Ok ==> r->Ok_0.inner == self.spec_margin_level(*pools, *prices, who, pool_id)->Ok_0,
            r is Err ==> r->Err_0 == self.spec_margin_level(*pools, *prices, who, pool_id)->Err_0,
    {
        let equity = self.equity(pools, prices, who, pool_id)?;
        let debits = self.trader_sum(pools, prices, who, pool_id, PositionTerm::DebitsInUsd)?;
        match equity.checked_div(&debits) {
            Some(v) => Ok(v),
            None => Ok(Fixed::max_value()),
        }
    }

    /// Margin level of `who` in `pool`: `equity / leveraged_debits_in_usd`; the maximum where
    /// there are no leveraged debits.
    pub fn margin_level(&self, pools: &MarginLiquidityPools, prices: &Prices, who: AccountId, pool_id: LiquidityPoolId) -> (r:
        Result<Fixed, DispatchError>)
        requires
            self.wf(),
            pools.wf(),
            prices.wf(),
        ensures
            ({
                let s = self.spec_margin_level(*pools, *prices, who, pool_id);
                &&& r is Ok <==> s is Ok
                &&& r is Ok ==> r->Ok_0.inner == s->Ok_0
                &&& r is Err ==> r->Err_0 == DispatchError::MarginProtocol(s->Err_0)
            }),
    {
        match self.level(pools, prices, who, pool_id) {
            Ok(v) => Ok(v),
            Err(e) => Err(merr(e)),
        }
    }

    /// The largest trader thresholds of the pairs of the positions of `who` in `pool`.
    pub fn risk_threshold_of_trader(&self, who: AccountId, pool_id: LiquidityPoolId) -> (r: RiskThreshold)
        requires
            self.wf(),
        ensures
            r == self.spec_trader_threshold(who, pool_id),
    {
        let ghost s = self.spec_positions();
        let ghost f = threshold_step(self.threshold_of(), who, pool_id);
        let n = self.positions.len();
        let mut acc = RiskThreshold { margin_call: Permill::zero(), stop_out: Permill::zero() };
        let mut i: usize = 0;
        while i < n
            invariant
                self.wf(),
                s == self.spec_positions(),
                f == threshold_step(self.threshold_of(), who, pool_id),
                n == s.len(),
                i <= n,
                try_fold(s.take(i as int), zero_threshold(), f) == Ok::<RiskThreshold, MarginError>(acc),
            decreases n - i,
        {
            let p = *self.positions.value_at(i);
            proof {
                lemma_try_fold_step(s, zero_threshold(), f, i as int);
            }
            if p.owner == who && p.pool == pool_id {
                if let Some(t) = self.trader_risk_threshold(p.pair) {
                    acc = RiskThreshold {
                        margin_call: acc.margin_call.max(&t.margin_call),
                        stop_out: acc.stop_out.max(&t.stop_out),
                    };
                }
            }
            i = i + 1;
        }
        proof {
            lemma_take_all(s);
        }
        acc
    }

    /// `Ok` if `who` is safe in `pool` after `action`; `UnsafeTrader` if not.
    pub fn ensure_trader_safe(
        &self,
        pools: &MarginLiquidityPools,
        prices: &Prices,
        who: AccountId,
        pool_id: LiquidityPoolId,
        action: Action,
    ) -> (r: Result<(), MarginError>)
        requires
            self.wf(),
            pools.wf(),
            prices.wf(),
        ensures
            r == match self.spec_check_trader(*pools, *prices, who, pool_id, action) {
                Ok(Risk::Safe) => Ok::<(), MarginError>(()),
                Ok(_) => Err::<(), MarginError>(MarginError::UnsafeTrader),
                Err(e) => Err::<(), MarginError>(e),
            },
    {
        match self.check_trader(pools, prices, who, pool_id, action)? {
            Risk::Safe => Ok(()),
            _ => Err(MarginError::UnsafeTrader),
        }
    }

    pub fn check_trader(
        &self,
        pools: &MarginLiquidityPools,
        prices: &Prices,
        who: AccountId,
        pool_id: LiquidityPoolId,
        action: Action,
    ) -> (r: Result<Risk, MarginError>)
        requires
            self.wf(),
            pools.wf(),
            prices.wf(),
        ensures
            r == self.spec_check_trader(*pools, *prices, who, pool_id, action),
    {
        let margin_level = self.level(pools, prices, who, pool_id)?;
        let new_pair = match action {
            Action::OpenPosition(p) => match self.trader_risk_threshold(p.pair) {
                Some(t) => t,
                None => RiskThreshold { margin_call: Permill::zero(), stop_out: Permill::zero() },
            },
            _ => RiskThreshold { margin_call: Permill::zero(), stop_out: Permill::zero() },
        };
        let t = self.risk_threshold_of_trader(who, pool_id);
        if margin_level.inner <= Fixed::from_permill(t.stop_out.max(&new_pair.stop_out)).inner {
            Ok(Risk::StopOut)
        } else if margin_level.inner <= Fixed::from_permill(t.margin_call.max(&new_pair.margin_call)).inner {
            Ok(Risk::MarginCall)
        } else {
            Ok(Risk::Safe)
        }
    }
}

impl MarginProtocol {
    /// Unrealized profit and loss of the positions in `pool`.
    pub open spec fn spec_pool_pl(&self, pools: MarginLiquidityPools, prices: Prices, pool: LiquidityPoolId) -> Result<
        i128,
        MarginError,
    > {
        try_fold(self.snapshot_entries(), 0i128, pool_pl_step(pools, prices, pool))
    }

    /// `equity_of_pool = liquidity - unrealized_pl`; accumulated swap rates are left out.
    pub open spec fn spec_pool_equity(&self, pools: MarginLiquidityPools, prices: Prices, pool: LiquidityPoolId) -> Result<
        i128,
        MarginError,
    > {
        match self.spec_pool_pl(pools, prices, pool) {
            Err(e) => Err(e),
            Ok(u) => {
                let v = fixed_of_balance(pools.spec_base().spec_liquidity(pool)) - u;
                if fits(v) {
                    Ok(v as i128)
                } else {
                    Err(MarginError::NumOutOfBound)
                }
            },
        }
    }

    /// `(net position, longest leg)` of `pool` in USD, with a position about to be opened.
    pub open spec fn spec_net_and_longest(&self, prices: Prices, pool: LiquidityPoolId, new_position: Option<Position>) -> Result<
        (i128, i128),
        MarginError,
    > {
        match try_fold(self.snapshot_entries(), (0i128, 0i128), nl_step(prices, pool)) {
            Err(e) => Err(e),
            Ok(acc) => match new_position {
                None => Ok(acc),
                Some(p) => nl_add(prices, acc, p.pair, position_snapshot(p)),
            },
        }
    }

    /// `(ENP, ELL)` of `pool` after `action`: equity over net position and over longest leg;
    /// the maximum where a divisor is zero.
    pub open spec fn spec_enp_and_ell(&self, pools: MarginLiquidityPools, prices: Prices, pool: LiquidityPoolId, action: Action) -> Result<
        (i128, i128),
        MarginError,
    > {
        match self.spec_pool_equity(pools, prices, pool) {
            Err(e) => Err(e),
            Ok(equity) => {
                let new_position = match action {
                    Action::OpenPosition(p) => Some(p),
                    _ => None,
                };
                match self.spec_net_and_longest(prices, pool, new_position) {
                    Err(e) => Err(e),
                    Ok(nl) => {
                        let eq = match action {
                            Action::Withdraw(amount) => equity - fixed_of_balance(amount),
                            _ => equity as int,
                        };
                        if !fits(eq) {
                            Err(MarginError::NumOutOfBound)
                        } else {
                            Ok(
                                (
                                    match spec_fixed_div(eq as i128, nl.0) {
                                        Some(v) => v,
                                        None => i128::MAX,
                                    },
                                    match spec_fixed_div(eq as i128, nl.1) {
                                        Some(v) => v,
                                        None => i128::MAX,
                                    },
                                ),
                            )
                        }
                    },
                }
            },
        }
    }

    /// The largest `(ENP, ELL)` thresholds of the pairs of `pool`.
    pub open spec fn spec_pool_thresholds(&self, pool: LiquidityPoolId) -> (RiskThreshold, RiskThreshold) {
        try_fold(
            self.snapshot_entries(),
            (zero_threshold(), zero_threshold()),
            pool_threshold_step(self.threshold_of(), pool),
        )->Ok_0
    }

    /// The `(ENP, ELL)` thresholds of the pair of a position about to be opened.
    pub open spec fn action_pool_thresholds(&self, action: Action) -> (RiskThreshold, RiskThreshold) {
        match action {
            Action::OpenPosition(p) => (
                match self.thresholds(p.pair).enp {
                    Some(t) => t,
                    None => zero_threshold(),
                },
                match self.thresholds(p.pair).ell {
                    Some(t) => t,
                    None => zero_threshold(),
                },
            ),
            _ => (zero_threshold(), zero_threshold()),
        }
    }

    /// The risk of `pool` after `action`.
    pub open spec fn spec_check_pool(&self, pools: MarginLiquidityPools, prices: Prices, pool: LiquidityPoolId, action: Action) -> Result<
        Risk,
        MarginError,
    > {
        let n = self.action_pool_thresholds(action);
        let t = self.spec_pool_thresholds(pool);
        match self.spec_enp_and_ell(pools, prices, pool, action) {
            Err(e) => Err(e),
            Ok(v) => if v.0 <= permill_fixed(pmax(t.0.stop_out, n.0.stop_out)) || v.1 <= permill_fixed(
                pmax(t.1.stop_out, n.1.stop_out),
            ) {
                Ok(Risk::StopOut)
            } else if v.0 <= permill_fixed(pmax(t.0.margin_call, n.0.margin_call)) || v.1 <= permill_fixed(
                pmax(t.1.margin_call, n.1.margin_call),
            ) {
                Ok(Risk::MarginCall)
            } else {
                Ok(Risk::Safe)
            },
        }
    }

    /// `Ok` iff `pool` is safe after `action`; else `UnsafePool` for no action and
    /// `PoolWouldBeUnsafe` for an action.
    pub open spec fn spec_ensure_pool_safe(&self, pools: MarginLiquidityPools, prices: Prices, pool: LiquidityPoolId, action: Action) -> Result<
        (),
        MarginError,
    > {
        match self.spec_check_pool(pools, prices, pool, action) {
            Ok(Risk::Safe) => Ok(()),
            _ => if action is Nothing {
                Err(MarginError::UnsafePool)
            } else {
                Err(MarginError::PoolWouldBeUnsafe)
            },
        }
    }

    fn unrealized_pl_of_pool(&self, pools: &MarginLiquidityPools, prices: &Prices, pool: LiquidityPoolId) -> (r:
        Result<Fixed, MarginError>)
        requires
            self.wf(),
            pools.wf(),
            prices.wf(),
        ensures
            r is Ok <==> self.spec_pool_pl(*pools, *prices, pool) is Ok,
            r is Ok ==> r->Ok_0.inner == self.spec_pool_pl(*pools, *prices, pool)->Ok_0,
            r is Err ==> r->Err_0 == self.spec_pool_pl(*pools, *prices, pool)->Err_0,
    {
        let ghost s = self.snapshot_entries();
        let ghost f = pool_pl_step(*pools, *prices, pool);
        let n = self.snapshots.len();
        let mut acc = Fixed::zero();
        let mut i: usize = 0;
        while i < n
            invariant
                self.wf(),
                pools.wf(),
                prices.wf(),
                s == self.snapshot_entries(),
                f == pool_pl_step(*pools, *prices, pool),
                n == s.len(),
                i <= n,
                try_fold(s.take(i as int), 0i128, f) == Ok::<i128, MarginError>(acc.inner),
            decreases n - i,
        {
            let k = self.snapshots.key_at(i);
            let snap = *self.snapshots.value_at(i);
            proof {
                lemma_try_fold_step(s, 0i128, f, i as int);
            }
            if k.pool == pool {
                let x = match self.snapshot_pl(pools, prices, pool, k.pair, snap) {
                    Ok(x) => x,
                    Err(e) => {
                        proof {
                            lemma_try_fold_err(s, 0i128, f, i + 1);
                        }
                        return Err(e);
                    },
                };
                match acc.checked_add(&x) {
                    Some(v) => {
                        acc = v;
                    },
                    None => {
                        proof {
                            lemma_try_fold_err(s, 0i128, f, i + 1);
                        }
                        return Err(MarginError::NumOutOfBound);
                    },
                }
            }
            i = i + 1;
        }
        proof {
            lemma_take_all(s);
        }
        Ok(acc)
    }

    fn side_pl(prices: &Prices, pair: TradingPair, amounts: LeveragedAmounts, curr: Result<Fixed, MarginError>, Ghost(
        spec_curr,
    ): Ghost<Result<i128, MarginError>>) -> (r: Result<Fixed, MarginError>)
        requires
            prices.wf(),
            curr is Ok <==> spec_curr is Ok,
            curr is Ok ==> curr->Ok_0.inner == spec_curr->Ok_0,
            curr is Err ==> curr->Err_0 == spec_curr->Err_0,
        ensures
            r is Ok <==> spec_side_pl(*prices, pair, amounts, spec_curr) is Ok,
            r is Ok ==> r->Ok_0.inner == spec_side_pl(*prices, pair, amounts, spec_curr)->Ok_0,
            r is Err ==> r->Err_0 == spec_side_pl(*prices, pair, amounts, spec_curr)->Err_0,
    {
        let c = curr?;
        let b = match amounts.held.checked_mul(&c) {
            Some(b) => b,
            None => {
                return Err(MarginError::NumOutOfBound);
            },
        };
        let profit = match b.checked_add(&amounts.debits) {
            Some(v) => v,
            None => {
                return Err(MarginError::NumOutOfBound);
            },
        };
        usd_value(prices, pair.quote, profit)
    }

    fn snapshot_pl(
        &self,
        pools: &MarginLiquidityPools,
        prices: &Prices,
        pool: LiquidityPoolId,
        pair: TradingPair,
        snap: PositionsSnapshot,
    ) -> (r: Result<Fixed, MarginError>)
        requires
            pools.wf(),
            prices.wf(),
        ensures
            r is Ok <==> spec_snapshot_pl(*pools, *prices, pool, pair, snap) is Ok,
            r is Ok ==> r->Ok_0.inner == spec_snapshot_pl(*pools, *prices, pool, pair, snap)->Ok_0,
            r is Err ==> r->Err_0 == spec_snapshot_pl(*pools, *prices, pool, pair, snap)->Err_0,
    {
        let bid = bid_price(pools, prices, pool, pair, None);
        let l = Self::side_pl(prices, pair, snap.long, bid, Ghost(spec_bid_price(*pools, *prices, pool, pair, None)))?;
        let ask = ask_price(pools, prices, pool, pair, None);
        let sh = Self::side_pl(prices, pair, snap.short, ask, Ghost(spec_ask_price(*pools, *prices, pool, pair, None)))?;
        match l.checked_add(&sh) {
            Some(v) => Ok(v),
            None => Err(MarginError::NumOutOfBound),
        }
    }

    pub fn equity_of_pool(&self, pools: &MarginLiquidityPools, prices: &Prices, pool: LiquidityPoolId) -> (r: Result<
        Fixed,
        MarginError,
    >)
        requires
            self.wf(),
            pools.wf(),
            prices.wf(),
        ensures
            r is Ok <==> self.spec_pool_equity(*pools, *prices, pool) is Ok,
            r is Ok ==> r->Ok_0.inner == self.spec_pool_equity(*pools, *prices, pool)->Ok_0,
            r is Err ==> r->Err_0 == self.spec_pool_equity(*pools, *prices, pool)->Err_0,
    {
        let liquidity = fixed_i128_from_u128(pools.base().liquidity(pool));
        let unrealized = self.unrealized_pl_of_pool(pools, prices, pool)?;
        match liquidity.checked_sub(&unrealized) {
            Some(v) => Ok(v),
            None => Err(MarginError::NumOutOfBound),
        }
    }

    fn add_net_and_longest(prices: &Prices, acc: (Fixed, Fixed), pair: TradingPair, snap: PositionsSnapshot) -> (r:
        Result<(Fixed, Fixed), MarginError>)
        requires
            prices.wf(),
        ensures
            r is Ok <==> nl_add(*prices, (acc.0.inner, acc.1.inner), pair, snap) is Ok,
            r is Ok ==> r->Ok_0.0.inner == nl_add(*prices, (acc.0.inner, acc.1.inner), pair, snap)->Ok_0.0
                && r->Ok_0.1.inner == nl_add(*prices, (acc.0.inner, acc.1.inner), pair, snap)->Ok_0.1,
            r is Err ==> r->Err_0 == nl_add(*prices, (acc.0.inner, acc.1.inner), pair, snap)->Err_0,
    {
        let net = match snap.long.held.checked_add(&snap.short.held) {
            Some(v) => v,
            None => {
                return Err(MarginError::NumOutOfBound);
            },
        };
        let net_in_usd = usd_value(prices, pair.base, net.saturating_abs())?;
        let short_abs = snap.short.held.saturating_abs();
        let longest = if snap.long.held.inner >= short_abs.inner {
            snap.long.held
        } else {
            short_abs
        };
        let longest_in_usd = usd_value(prices, pair.base, longest.saturating_abs())?;
        let new_net = match acc.0.checked_add(&net_in_usd) {
            Some(v) => v,
            None => {
                return Err(MarginError::NumOutOfBound);
            },
        };
        let new_longest = match acc.1.checked_add(&longest_in_usd) {
            Some(v) => v,
            None => {
                return Err(MarginError::NumOutOfBound);
            },
        };
        Ok((new_net, new_longest))
    }

    fn net_position_and_longest_leg(&self, prices: &Prices, pool: LiquidityPoolId, new_position: Option<Position>) -> (r:
        Result<(Fixed, Fixed), MarginError>)
        requires
            self.wf(),
            prices.wf(),
        ensures
            r is Ok <==> self.spec_net_and_longest(*prices, pool, new_position) is Ok,
            r is Ok ==> r->Ok_0.0.inner == self.spec_net_and_longest(*prices, pool, new_position)->Ok_0.0
                && r->Ok_0.1.inner == self.spec_net_and_longest(*prices, pool, new_position)->Ok_0.1,
            r is Err ==> r->Err_0 == self.spec_net_and_longest(*prices, pool, new_position)->Err_0,
            r is Ok ==> r->Ok_0.0.inner >= 0 && r->Ok_0.1.inner >= 0,
    {
        proof {
            if self.spec_net_and_longest(*prices, pool, new_position) is Ok {
                let s0 = self.snapshot_entries();
                lemma_nl_fold_nonneg(s0, *prices, pool);
                if let Some(p) = new_position {
                    let acc = try_fold(s0, (0i128, 0i128), nl_step(*prices, pool))->Ok_0;
                    lemma_nl_add_nonneg(*prices, acc, p.pair, position_snapshot(p));
                }
            }
        }
        let ghost s = self.snapshot_entries();
        let ghost f = nl_step(*prices, pool);
        let n = self.snapshots.len();
        let mut acc = (Fixed::zero(), Fixed::zero());
        let mut i: usize = 0;
        while i < n
            invariant
                self.wf(),
                prices.wf(),
                s == self.snapshot_entries(),
                f == nl_step(*prices, pool),
                n == s.len(),
                i <= n,
                try_fold(s.take(i as int), (0i128, 0i128), f) == Ok::<(i128, i128), MarginError>(
                    (acc.0.inner, acc.1.inner),
                ),
            decreases n - i,
        {
            let k = self.snapshots.key_at(i);
            let snap = *self.snapshots.value_at(i);
            proof {
                lemma_try_fold_step(s, (0i128, 0i128), f, i as int);
            }
            if k.pool == pool {
                acc = match Self::add_net_and_longest(prices, acc, k.pair, snap) {
                    Ok(v) => v,
                    Err(e) => {
                        proof {
                            lemma_try_fold_err(s, (0i128, 0i128), f, i + 1);
                        }
                        return Err(e);
                    },
                };
            }
            i = i + 1;
        }
        proof {
            lemma_take_all(s);
        }
        match new_position {
            None => Ok(acc),
            Some(p) => {
                let amounts = LeveragedAmounts { held: p.leveraged_held, debits: p.leveraged_debits };
                let zero = LeveragedAmounts { held: Fixed::zero(), debits: Fixed::zero() };
                let snap = if p.leverage.is_long() {
                    PositionsSnapshot { positions_count: 1, long: amounts, short: zero }
                } else {
                    PositionsSnapshot { positions_count: 1, long: zero, short: amounts }
                };
                Self::add_net_and_longest(prices, acc, p.pair, snap)
            },
        }
    }

    pub fn enp_and_ell_with_action(
        &self,
        pools: &MarginLiquidityPools,
        prices: &Prices,
        pool: LiquidityPoolId,
        action: Action,
    ) -> (r: Result<(Fixed, Fixed), MarginError>)
        requires
            self.wf(),
            pools.wf(),
            prices.wf(),
        ensures
            r is Ok <==> self.spec_enp_and_ell(*pools, *prices, pool, action) is Ok,
            r is Ok ==> r->Ok_0.0.inner == self.spec_enp_and_ell(*pools, *prices, pool, action)->Ok_0.0
                && r->Ok_0.1.inner == self.spec_enp_and_ell(*pools, *prices, pool, action)->Ok_0.1,
            r is Err ==> r->Err_0 == self.spec_enp_and_ell(*pools, *prices, pool, action)->Err_0,
    {
        let equity = self.equity_of_pool(pools, prices, pool)?;
        let new_position = match action {
            Action::OpenPosition(p) => Some(p),
            _ => None,
        };
        let (net_position, longest_leg) = self.net_position_and_longest_leg(prices, pool, new_position)?;
        let equity = match action {
            Action::Withdraw(amount) => match equity.checked_sub(&fixed_i128_from_u128(amount)) {
                Some(v) => v,
                None => {
                    return Err(MarginError::NumOutOfBound);
                },
            },
            _ => equity,
        };
        let enp = match equity.checked_div(&net_position) {
            Some(v) => v,
            None => Fixed::max_value(),
        };
        let ell = match equity.checked_div(&longest_leg) {
            Some(v) => v,
            None => Fixed::max_value(),
        };
        Ok((enp, ell))
    }

    pub fn enp_and_ell_risk_threshold_of_pool(&self, pool: LiquidityPoolId) -> (r: (RiskThreshold, RiskThreshold))
        requires
            self.wf(),
        ensures
            r == self.spec_pool_thresholds(pool),
    {
        let ghost s = self.snapshot_entries();
        let ghost f = pool_threshold_step(self.threshold_of(), pool);
        let n = self.snapshots.len();
        let zero = RiskThreshold { margin_call: Permill::zero(), stop_out: Permill::zero() };
        let mut acc = (zero, zero);
        let mut i: usize = 0;
        while i < n
            invariant
                self.wf(),
                s == self.snapshot_entries(),
                f == pool_threshold_step(self.threshold_of(), pool),
                n == s.len(),
                i <= n,
                try_fold(s.take(i as int), (zero_threshold(), zero_threshold()), f) == Ok::<
                    (RiskThreshold, RiskThreshold),
                    MarginError,
                >(acc),
            decreases n - i,
        {
            let k = self.snapshots.key_at(i);
            proof {
                lemma_try_fold_step(s, (zero_threshold(), zero_threshold()), f, i as int);
            }
            if k.pool == pool {
                let t = self.risk_thresholds(k.pair);
                if let (Some(enp), Some(ell)) = (t.enp, t.ell) {
                    acc = (
                        RiskThreshold {
                            margin_call: acc.0.margin_call.max(&enp.margin_call),
                            stop_out: acc.0.stop_out.max(&enp.stop_out),
                        },
                        RiskThreshold {
                            margin_call: acc.1.margin_call.max(&ell.margin_call),
                            stop_out: acc.1.stop_out.max(&ell.stop_out),
                        },
                    );
                }
            }
            i = i + 1;
        }
        proof {
            lemma_take_all(s);
        }
        acc
    }

    pub fn check_pool(&self, pools: &MarginLiquidityPools, prices: &Prices, pool: LiquidityPoolId, action: Action) -> (r:
        Result<Risk, MarginError>)
        requires
            self.wf(),
            pools.wf(),
            prices.wf(),
        ensures
            r == self.spec_check_pool(*pools, *prices, pool, action),
    {
        let zero = RiskThreshold { margin_call: Permill::zero(), stop_out: Permill::zero() };
        let (new_enp, new_ell) = match action {
            Action::OpenPosition(p) => (
                match self.liquidity_pool_enp_threshold(p.pair) {
                    Some(t) => t,
                    None => zero,
                },
                match self.liquidity_pool_ell_threshold(p.pair) {
                    Some(t) => t,
                    None => zero,
                },
            ),
            _ => (zero, zero),
        };
        let (enp_threshold, ell_threshold) = self.enp_and_ell_risk_threshold_of_pool(pool);
        let (enp, ell) = self.enp_and_ell_with_action(pools, prices, pool, action)?;
        if enp.inner <= Fixed::from_permill(enp_threshold.stop_out.max(&new_enp.stop_out)).inner || ell.inner
            <= Fixed::from_permill(ell_threshold.stop_out.max(&new_ell.stop_out)).inner {
            return Ok(Risk::StopOut);
        } else if enp.inner <= Fixed::from_permill(enp_threshold.margin_call.max(&new_enp.margin_call)).inner
            || ell.inner <= Fixed::from_permill(ell_threshold.margin_call.max(&new_ell.margin_call)).inner {
            return Ok(Risk::MarginCall);
        }
        Ok(Risk::Safe)
    }

    pub fn ensure_pool_safe(&self, pools: &MarginLiquidityPools, prices: &Prices, pool: LiquidityPoolId, action: Action) -> (r:
        Result<(), MarginError>)
        requires
            self.wf(),
            pools.wf(),
            prices.wf(),
        ensures
            r == self.spec_ensure_pool_safe(*pools, *prices, pool, action),
    {
        match self.check_pool(pools, prices, pool, action) {
            Ok(Risk::Safe) => Ok(()),
            _ => match action {
                Action::Nothing => Err(MarginError::UnsafePool),
                _ => Err(MarginError::PoolWouldBeUnsafe),
            },
        }
    }

    /// The state of `who` in `pool`, as reported to clients; a value that cannot be computed
    /// is reported as zero.
    pub fn trader_state(&self, pools: &MarginLiquidityPools, prices: &Prices, who: AccountId, pool_id: LiquidityPoolId) -> (r:
        MarginTraderState)
        requires
            self.wf(),
            pools.wf(),
            prices.wf(),
        ensures
            r.equity.inner == or_zero(self.spec_equity(*pools, *prices, who, pool_id)),
            r.margin_held.inner == self.spec_margin_held(who, pool_id),
            r.margin_level.inner == or_zero(self.spec_margin_level(*pools, *prices, who, pool_id)),
            r.free_margin.inner == or_zero(self.spec_free_margin(*pools, *prices, who, pool_id)),
            r.unrealized_pl.inner == or_zero(
                self.spec_trader_sum(*pools, *prices, who, pool_id, PositionTerm::UnrealizedPl),
            ),
    {
        let zero = Fixed::zero();
        MarginTraderState {
            equity: match self.equity(pools, prices, who, pool_id) {
                Ok(v) => v,
                Err(_) => zero,
            },
            margin_held: self.margin_held(who, pool_id),
            margin_level: match self.level(pools, prices, who, pool_id) {
                Ok(v) => v,
                Err(_) => zero,
            },
            free_margin: match self.free(pools, prices, who, pool_id) {
                Ok(v) => v,
                Err(_) => zero,
            },
            unrealized_pl: match self.trader_sum(pools, prices, who, pool_id, PositionTerm::UnrealizedPl) {
                Ok(v) => v,
                Err(_) => zero,
            },
        }
    }

    /// ENP, ELL and required deposit of `pool`, as reported to clients; `None` where one of
    /// them is.
    pub fn pool_state(&self, pools: &MarginLiquidityPools, prices: &Prices, pool: LiquidityPoolId) -> (r: Option<
        MarginPoolState,
    >)
        requires
            self.wf(),
            pools.wf(),
            prices.wf(),
        ensures
            ({
                let v = self.spec_enp_and_ell(*pools, *prices, pool, Action::Nothing);
                let d = self.spec_required_deposit(*pools, *prices, pool);
                &&& r is Some <==> pools.spec_base().pool(pool) is Some && v is Ok && d is Some
                &&& r matches Some(x) ==> x.enp.inner == v->Ok_0.0 && x.ell.inner == v->Ok_0.1
                    && x.required_deposit.inner == d->0
            }),
    {
        let (enp, ell) = self.enp_and_ell(pools, prices, pool)?;
        let required_deposit = self.pool_required_deposit(pools, prices, pool)?;
        Some(MarginPoolState { enp, ell, required_deposit })
    }

    /// `(ENP, ELL)` of `pool`; `None` if the pool does not exist or they cannot be computed.
    pub fn enp_and_ell(&self, pools: &MarginLiquidityPools, prices: &Prices, pool: LiquidityPoolId) -> (r: Option<
        (Fixed, Fixed),
    >)
        requires
            self.wf(),
            pools.wf(),
            prices.wf(),
        ensures
            ({
                let v = self.spec_enp_and_ell(*pools, *prices, pool, Action::Nothing);
                &&& r is Some <==> pools.spec_base().pool(pool) is Some && v is Ok
                &&& r matches Some(x) ==> x.0.inner == v->Ok_0.0 && x.1.inner == v->Ok_0.1
            }),
    {
        if pools.base().pool_exists(pool) {
            return match self.enp_and_ell_with_action(pools, prices, pool, Action::Nothing) {
                Ok(v) => Some(v),
                Err(_) => None,
            };
        }
        None
    }

    /// `Ok` iff `pool` stays safe after `amount` is withdrawn from it.
    pub fn ensure_can_withdraw(&self, pools: &MarginLiquidityPools, prices: &Prices, pool: LiquidityPoolId, amount: Balance) -> (r:
        Result<(), DispatchError>)
        requires
            self.wf(),
            pools.wf(),
            prices.wf(),
        ensures
            ({
                let v = self.spec_ensure_pool_safe(*pools, *prices, pool, Action::Withdraw(amount));
                &&& r is Ok <==> v is Ok
                &&& r is Err ==> r->Err_0 == DispatchError::MarginProtocol(v->Err_0)
            }),
    {
        match self.ensure_pool_safe(pools, prices, pool, Action::Withdraw(amount)) {
            Ok(()) => Ok(()),
            Err(e) => Err(merr(e)),
        }
    }

    /// `Ok` iff `pair` may be enabled in `pool`: the pair has all its risk thresholds and the
    /// pool is above the ENP and ELL thresholds of the pair.
    pub fn ensure_can_enable_trading_pair(
        &self,
        pools: &MarginLiquidityPools,
        prices: &Prices,
        pool: LiquidityPoolId,
        pair: TradingPair,
    ) -> (r: Result<(), DispatchError>)
        requires
            self.wf(),
            pools.wf(),
            prices.wf(),
        ensures
            ({
                let t = self.thresholds(pair);
                let v = self.spec_enp_and_ell(*pools, *prices, pool, Action::Nothing);
                &&& (t.trader is None || t.enp is None || t.ell is None) ==> r == Err::<(), DispatchError>(
                    DispatchError::MarginProtocol(MarginError::NoRiskThreshold),
                )
                &&& (t.trader is Some && t.enp is Some && t.ell is Some) ==> {
                    &&& v is Err ==> r == Err::<(), DispatchError>(DispatchError::MarginProtocol(v->Err_0))
                    &&& v is Ok ==> {
                        let unsafe_pool = v->Ok_0.0 <= permill_fixed(t.enp->0.stop_out) || v->Ok_0.1 <= permill_fixed(
                            t.ell->0.stop_out,
                        ) || v->Ok_0.0 <= permill_fixed(t.enp->0.margin_call) || v->Ok_0.1 <= permill_fixed(
                            t.ell->0.margin_call,
                        );
                        &&& unsafe_pool ==> r == Err::<(), DispatchError>(
                            DispatchError::MarginProtocol(MarginError::PoolWouldBeUnsafe),
                        )
                        &&& !unsafe_pool ==> r is Ok
                    }
                }
            }),
    {
        let t = self.risk_thresholds(pair);
        if t.trader.is_none() {
            return Err(merr(MarginError::NoRiskThreshold));
        }
        let enp_threshold = match t.enp {
            Some(x) => x,
            None => {
                return Err(merr(MarginError::NoRiskThreshold));
            },
        };
        let ell_threshold = match t.ell {
            Some(x) => x,
            None => {
                return Err(merr(MarginError::NoRiskThreshold));
            },
        };
        let (enp, ell) = match self.enp_and_ell_with_action(pools, prices, pool, Action::Nothing) {
            Ok(v) => v,
            Err(e) => {
                return Err(merr(e));
            },
        };
        if enp.inner <= Fixed::from_permill(enp_threshold.stop_out).inner || ell.inner <= Fixed::from_permill(
            ell_threshold.stop_out,
        ).inner || enp.inner <= Fixed::from_permill(enp_threshold.margin_call).inner || ell.inner
            <= Fixed::from_permill(ell_threshold.margin_call).inner {
            return Err(merr(MarginError::PoolWouldBeUnsafe));
        }
        Ok(())
    }

    /// Whether `pool` may be removed: no position is open in it.
    pub fn can_remove(&self, pool: LiquidityPoolId) -> (r: bool)
        requires
            self.wf(),
        ensures
            r <==> forall|i: int| 0 <= i < self.spec_positions().len() ==> (#[trigger] self.spec_positions()[i]).1.pool
                != pool,
    {
        let n = self.snapshots.len();
        let mut i: usize = 0;
        while i < n
            invariant
                self.wf(),
                n == self.snapshots.entries().len(),
                i <= n,
                forall|j: int| 0 <= j < i && (#[trigger] self.snapshots.entries()[j]).0.pool == pool
                    ==> self.snapshots.entries()[j].1.positions_count == 0,
            decreases n - i,
        {
            let k = self.snapshots.key_at(i);
            let snap = *self.snapshots.value_at(i);
            if k.pool == pool && snap.positions_count != 0 {
                proof {
                    self.snapshots.lemma_wf();
                    assert(self.snapshots.spec_get(k) == Some(snap));
                    let s = self.positions.entries();
                    if forall|m: int| 0 <= m < s.len() ==> (#[trigger] s[m]).1.pool != pool {
                        assert forall|m: int| 0 <= m < s.len() implies !((#[trigger] s[m]).1.pool == k.pool && s[m].1.pair == k.pair) by {}
                        lemma_count_none(s, k.pool, k.pair);
                    }
                }
                return false;
            }
            i = i + 1;
        }
        proof {
            self.snapshots.lemma_wf();
            let s = self.positions.entries();
            assert forall|m: int| 0 <= m < s.len() implies (#[trigger] s[m]).1.pool != pool by {
                if s[m].1.pool == pool {
                    lemma_count_positive(s, m);
                    let k = PoolPair { pool, pair: s[m].1.pair };
                    assert(self.snapshots.spec_get(k) is Some);
                    assert(self.snapshots.spec_contains(k));
                    let j = choose|j: int| 0 <= j < self.snapshots.entries().len() && self.snapshots.entries()[j].0 == k;
                    assert(self.snapshots.entries()[j].1 == self.snapshots.spec_get(k)->0);
                }
            }
        }
        true
    }
}

impl MarginProtocol {
    /// The deposit that brings `pool` up to its ENP and ELL margin call thresholds; zero if it
    /// is above them, `None` if it cannot be computed.
    pub open spec fn spec_required_deposit(&self, pools: MarginLiquidityPools, prices: Prices, pool: LiquidityPoolId) -> Option<
        i128,
    > {
        match self.spec_net_and_longest(prices, pool, None) {
            Err(_) => None,
            Ok(nl) => {
                let t = self.spec_pool_thresholds(pool);
                let for_enp = spec_fixed_mul(nl.0, permill_fixed(t.0.margin_call) as i128)->0;
                let for_ell = spec_fixed_mul(nl.1, permill_fixed(t.1.margin_call) as i128)->0;
                let required = imax(for_enp, for_ell);
                match self.spec_pool_equity(pools, prices, pool) {
                    Err(_) => None,
                    Ok(eq) => if fits(required - eq) {
                        Some(imax((required - eq) as i128, 0))
                    } else {
                        None
                    },
                }
            },
        }
    }

    /// The deposit that brings `pool` up to its ENP and ELL margin call thresholds: zero if it
    /// is above them; `None` if it cannot be computed.
    pub fn pool_required_deposit(&self, pools: &MarginLiquidityPools, prices: &Prices, pool: LiquidityPoolId) -> (r:
        Option<Fixed>)
        requires
            self.wf(),
            pools.wf(),
            prices.wf(),
        ensures
            r is Some <==> self.spec_required_deposit(*pools, *prices, pool) is Some,
            r matches Some(x) ==> x.inner == self.spec_required_deposit(*pools, *prices, pool)->0,
    {
        let (net_position, longest_leg) = match self.net_position_and_longest_leg(prices, pool, None) {
            Ok(v) => v,
            Err(_) => {
                return None;
            },
        };
        let (enp_threshold, ell_threshold) = self.enp_and_ell_risk_threshold_of_pool(pool);
        let enp_ratio = Fixed::from_permill(enp_threshold.margin_call);
        let ell_ratio = Fixed::from_permill(ell_threshold.margin_call);
        proof {
            crate::fixed::lemma_mul_at_most_one(net_position.inner, enp_ratio.inner);
            crate::fixed::lemma_mul_at_most_one(longest_leg.inner, ell_ratio.inner);
        }
        let for_enp = net_position.checked_mul(&enp_ratio).unwrap();
        let for_ell = longest_leg.checked_mul(&ell_ratio).unwrap();
        let required = if for_enp.inner >= for_ell.inner {
            for_enp
        } else {
            for_ell
        };
        let equity = match self.equity_of_pool(pools, prices, pool) {
            Ok(v) => v,
            Err(_) => {
                return None;
            },
        };
        let gap = required.checked_sub(&equity)?;
        if gap.is_positive() {
            Some(gap)
        } else {
            Some(Fixed::zero())
        }
    }
}

impl MarginProtocol {
    /// `other` is `self` with `p` added as position `id`.
    pub open spec fn inserted(&self, other: &MarginProtocol, id: PositionId, p: Position) -> bool {
        &&& other.spec_positions() == self.spec_positions().push((id, p))
        &&& other.position(id) == Some(p)
        &&& forall|j: PositionId| j != id ==> #[trigger] other.position(j) == self.position(j)
        &&& other.spec_next_position_id() == id + 1
        &&& other.snapshot(p.pool, p.pair) == snapshot_after_insert(self.snapshot(p.pool, p.pair), p)->0
        &&& forall|pool: LiquidityPoolId, pair: TradingPair|
            !(pool == p.pool && pair == p.pair) ==> #[trigger] other.snapshot(pool, pair) == self.snapshot(pool, pair)
        &&& (self.snapshot_keys().contains(PoolPair { pool: p.pool, pair: p.pair }) ==> other.snapshot_keys()
            == self.snapshot_keys())
        &&& (!self.snapshot_keys().contains(PoolPair { pool: p.pool, pair: p.pair }) ==> other.snapshot_keys()
            == self.snapshot_keys().push(PoolPair { pool: p.pool, pair: p.pair }))
        &&& forall|w: AccountId, pool: LiquidityPoolId| #[trigger] other.balance(w, pool) == self.balance(w, pool)
        &&& forall|w: AccountId, pool: LiquidityPoolId| #[trigger] other.trader_margin_called(w, pool)
            == self.trader_margin_called(w, pool)
        &&& forall|pool: LiquidityPoolId| #[trigger] other.pool_margin_called(pool) == self.pool_margin_called(pool)
        &&& forall|pair: TradingPair| #[trigger] other.thresholds(pair) == self.thresholds(pair)
        &&& other.same_config(self)
    }

    /// The settings of two states are the same.
    pub open spec fn same_config(&self, other: &MarginProtocol) -> bool {
        &&& other.spec_account() == self.spec_account()
        &&& other.spec_treasury() == self.spec_treasury()
        &&& other.spec_trader_max() == self.spec_trader_max()
        &&& other.spec_pool_max() == self.spec_pool_max()
        &&& other.spec_update_origin() == self.spec_update_origin()
        &&& other.spec_currency() == self.spec_currency()
    }

    /// `other` is `self` with position `id` of `who` removed and `delta` added to the balance of
    /// `who` in its pool, saturating; a negative balance is cleared when `who` has no other
    /// position in the pool.
    pub open spec fn closed(&self, other: &MarginProtocol, who: AccountId, id: PositionId, delta: i128) -> bool {
        let p = self.position(id)->0;
        let b = spec_saturate_i128(self.balance(who, p.pool) + delta);
        &&& exists|i: int|
            0 <= i < self.spec_positions().len() && (#[trigger] self.spec_positions()[i]).0 == id
                && other.spec_positions() == self.spec_positions().remove(i)
        &&& other.position(id) is None
        &&& forall|j: PositionId| j != id ==> #[trigger] other.position(j) == self.position(j)
        &&& other.spec_next_position_id() == self.spec_next_position_id()
        &&& other.snapshot(p.pool, p.pair) == snapshot_after_remove(self.snapshot(p.pool, p.pair), p)
        &&& forall|pool: LiquidityPoolId, pair: TradingPair|
            !(pool == p.pool && pair == p.pair) ==> #[trigger] other.snapshot(pool, pair) == self.snapshot(pool, pair)
        &&& other.snapshot_keys() == self.snapshot_keys()
        &&& other.balance(who, p.pool) == if !has_position_in(other.spec_positions(), who, p.pool) && b < 0 {
            0
        } else {
            b
        }
        &&& forall|w: AccountId, pool: LiquidityPoolId|
            !(w == who && pool == p.pool) ==> #[trigger] other.balance(w, pool) == self.balance(w, pool)
        &&& forall|w: AccountId, pool: LiquidityPoolId| #[trigger] other.trader_margin_called(w, pool)
            == self.trader_margin_called(w, pool)
        &&& forall|pool: LiquidityPoolId| #[trigger] other.pool_margin_called(pool) == self.pool_margin_called(pool)
        &&& forall|pair: TradingPair| #[trigger] other.thresholds(pair) == self.thresholds(pair)
        &&& other.same_config(self)
    }

    /// Closing a position right after it was added under the next id gives back the open
    /// positions and the snapshots of the state before it was added.
    pub proof fn lemma_insert_then_close(
        a: MarginProtocol,
        b: MarginProtocol,
        c: MarginProtocol,
        id: PositionId,
        p: Position,
        who: AccountId,
        delta: i128,
    )
        requires
            a.wf(),
            id == a.spec_next_position_id(),
            a.snapshot(p.pool, p.pair).positions_count < u64::MAX,
            snapshot_after_insert(a.snapshot(p.pool, p.pair), p) is Some,
            a.inserted(&b, id, p),
            b.closed(&c, who, id, delta),
        ensures
            c.spec_positions() == a.spec_positions(),
            forall|j: PositionId| #[trigger] c.position(j) == a.position(j),
            forall|pool: LiquidityPoolId, pair: TradingPair| #[trigger] c.snapshot(pool, pair) == a.snapshot(pool, pair),
            forall|w: AccountId, pool: LiquidityPoolId|
                !(w == who && pool == p.pool) ==> #[trigger] c.balance(w, pool) == a.balance(w, pool),
    {
        let n = a.spec_positions().len();
        let i = choose|i: int|
            0 <= i < b.spec_positions().len() && (#[trigger] b.spec_positions()[i]).0 == id
                && c.spec_positions() == b.spec_positions().remove(i);
        if i < n {
            assert(b.spec_positions()[i] == a.spec_positions()[i]);
            assert(a.positions.entries()[i].0 < a.next_position_id);
        }
        assert(c.spec_positions() =~= a.spec_positions());
        lemma_insert_then_remove(a.snapshot(p.pool, p.pair), p);
        assert(b.position(id) == Some(p));
        assert forall|j: PositionId| #[trigger] c.position(j) == a.position(j) by {
            if j == id {
                if a.position(j) is Some {
                    a.positions.lemma_wf();
                }
            }
        }
    }

    /// Adds `position` as a new position; fails where no id is left or a total overflows.
    pub fn insert_position(&mut self, position: Position) -> (r: Result<PositionId, MarginError>)
        requires
            old(self).wf(),
        ensures
            final(self).wf(),
            old(self).spec_next_position_id() == u64::MAX ==> r == Err::<PositionId, MarginError>(
                MarginError::NoAvailablePositionId,
            ),
            old(self).spec_next_position_id() < u64::MAX && !signs_ok(position) ==> r == Err::<
                PositionId,
                MarginError,
            >(MarginError::NumOutOfBound),
            old(self).spec_next_position_id() < u64::MAX && signs_ok(position) && old(self).snapshot(
                position.pool,
                position.pair,
            ).positions_count >= old(self).spec_pool_max() ==> r == Err::<PositionId, MarginError>(
                MarginError::CannotOpenMorePosition,
            ),
            old(self).spec_next_position_id() < u64::MAX && signs_ok(position) && old(self).snapshot(
                position.pool,
                position.pair,
            ).positions_count < old(self).spec_pool_max() && snapshot_after_insert(
                old(self).snapshot(position.pool, position.pair),
                position,
            ) is None ==> r == Err::<PositionId, MarginError>(MarginError::NumOutOfBound),
            r is Ok <==> old(self).spec_next_position_id() < u64::MAX && signs_ok(position) && old(
                self,
            ).snapshot(position.pool, position.pair).positions_count < old(self).spec_pool_max()
                && snapshot_after_insert(old(self).snapshot(position.pool, position.pair), position) is Some,
            r is Err ==> *final(self) == *old(self),
            r is Ok ==> r->Ok_0 == old(self).spec_next_position_id() && old(self).inserted(&*final(self), r->Ok_0, position),
    {
        let id = self.next_position_id;
        if id == u64::MAX {
            return Err(MarginError::NoAvailablePositionId);
        }
        let signs = if position.leverage.is_long() {
            position.leveraged_held.inner >= 0 && position.leveraged_debits.inner <= 0
        } else {
            position.leveraged_held.inner <= 0 && position.leveraged_debits.inner >= 0
        };
        if !signs {
            return Err(MarginError::NumOutOfBound);
        }
        if self.pool_positions_snapshots(position.pool, position.pair).positions_count
            >= self.pool_max_open_positions as u64 {
            return Err(MarginError::CannotOpenMorePosition);
        }
        let snap = self.pool_positions_snapshots(position.pool, position.pair);
        let side = if position.leverage.is_long() {
            snap.long
        } else {
            snap.short
        };
        let held = match side.held.checked_add(&position.leveraged_held) {
            Some(v) => v,
            None => {
                return Err(MarginError::NumOutOfBound);
            },
        };
        let debits = match side.debits.checked_add(&position.leveraged_debits) {
            Some(v) => v,
            None => {
                return Err(MarginError::NumOutOfBound);
            },
        };
        let amounts = LeveragedAmounts { held, debits };
        let new_snap = if position.leverage.is_long() {
            PositionsSnapshot { positions_count: snap.positions_count + 1, long: amounts, short: snap.short }
        } else {
            PositionsSnapshot { positions_count: snap.positions_count + 1, long: snap.long, short: amounts }
        };
        let ghost s0 = *self;
        let k = PoolPair { pool: position.pool, pair: position.pair };
        proof {
            self.snapshots.lemma_wf();
            assert(self.snapshots.keys().contains(k) <==> seq_has_key(self.snapshots.entries(), k)) by {
                if self.snapshots.keys().contains(k) {
                    let j = choose|j: int| 0 <= j < self.snapshots.keys().len() && self.snapshots.keys()[j] == k;
                    assert(self.snapshots.entries()[j].0 == k);
                }
                if seq_has_key(self.snapshots.entries(), k) {
                    let j = choose|j: int| 0 <= j < self.snapshots.entries().len() && self.snapshots.entries()[j].0 == k;
                    assert(self.snapshots.keys()[j] == k);
                }
            }
        }
        self.snapshots.insert(k, new_snap);
        self.next_position_id = id + 1;
        proof {
            self.positions.lemma_wf();
            assert(!seq_has_key(self.positions.entries(), id)) by {
                if seq_has_key(self.positions.entries(), id) {
                    let j = choose|j: int| 0 <= j < self.positions.entries().len() && self.positions.entries()[j].0 == id;
                    assert(self.positions.entries()[j].0 < id);
                }
            }
        }
        self.positions.insert(id, position);
        proof {
            let e0 = s0.positions.entries();
            let e1 = self.positions.entries();
            assert(e1.drop_last() =~= e0);
            assert forall|q: PoolPair| #[trigger] self.snapshots.spec_get(q) is Some implies self.snapshots.spec_get(q)->0.positions_count
                == count_in(e1, q.pool, q.pair) by {
                assert(count_in(e1, q.pool, q.pair) == count_in(e0, q.pool, q.pair) + if q == k { 1nat } else { 0nat });
            }
            assert forall|q: PoolPair| count_in(e1, q.pool, q.pair) > 0 implies #[trigger] self.snapshots.spec_get(q) is Some by {
                assert(count_in(e1, q.pool, q.pair) == count_in(e0, q.pool, q.pair) + if q == k { 1nat } else { 0nat });
            }
            assert forall|j: int| 0 <= j < e1.len() implies signs_ok((#[trigger] e1[j]).1) by {
                if j < e0.len() {
                    assert(e1[j] == e0[j]);
                }
            }
            assert forall|q: PoolPair| #[trigger] self.snapshots.spec_get(q) is Some implies totals_match(
                self.snapshots.spec_get(q)->0,
                e1,
                q.pool,
                q.pair,
            ) by {
                if q == k {
                    if s0.snapshots.spec_get(k) is None {
                        lemma_side_sum_zero(e0, k.pool, k.pair, false, true);
                        lemma_side_sum_zero(e0, k.pool, k.pair, false, false);
                        lemma_side_sum_zero(e0, k.pool, k.pair, true, true);
                        lemma_side_sum_zero(e0, k.pool, k.pair, true, false);
                    }
                }
            }
            assert forall|j: PositionId| j != id implies #[trigger] self.position(j) == s0.position(j) by {}
            assert forall|pool: LiquidityPoolId, pair: TradingPair|
                !(pool == position.pool && pair == position.pair) implies #[trigger] self.snapshot(pool, pair) == s0.snapshot(pool, pair) by {
                assert(PoolPair { pool, pair } != k);
            }
        }
        Ok(id)
    }

    /// The ids of the positions of `who` in `pool`, in the order they were opened.
    pub fn trader_position_ids(&self, who: AccountId, pool: LiquidityPoolId) -> (r: Vec<PositionId>)
        requires
            self.wf(),
        ensures
            r@ == ids_of(self.spec_positions(), who, pool),
    {
        let ghost s = self.spec_positions();
        let n = self.positions.len();
        let mut r: Vec<PositionId> = Vec::new();
        let mut i: usize = 0;
        while i < n
            invariant
                n == s.len(),
                s == self.spec_positions(),
                i <= n,
                r@ == ids_of(s.take(i as int), who, pool),
            decreases n - i,
        {
            proof {
                assert(s.take(i + 1).drop_last() =~= s.take(i as int));
            }
            let p = self.positions.value_at(i);
            if p.owner == who && p.pool == pool {
                r.push(self.positions.key_at(i));
            }
            i = i + 1;
        }
        proof {
            assert(s.take(n as int) =~= s);
        }
        r
    }

    /// Whether `who` has a position in `pool`.
    fn has_position(&self, who: AccountId, pool: LiquidityPoolId) -> (r: bool)
        requires
            self.wf(),
        ensures
            r == has_position_in(self.spec_positions(), who, pool),
    {
        let n = self.positions.len();
        let mut i: usize = 0;
        while i < n
            invariant
                n == self.spec_positions().len(),
                i <= n,
                forall|j: int| 0 <= j < i ==> !((#[trigger] self.spec_positions()[j]).1.owner == who
                    && self.spec_positions()[j].1.pool == pool),
            decreases n - i,
        {
            let p = self.positions.value_at(i);
            if p.owner == who && p.pool == pool {
                return true;
            }
            i = i + 1;
        }
        false
    }

    /// Number of positions of `who` in `pool`.
    fn trader_positions_count(&self, who: AccountId, pool: LiquidityPoolId) -> (r: usize)
        requires
            self.wf(),
        ensures
            r == trader_count(self.spec_positions(), who, pool),
    {
        let ghost s = self.spec_positions();
        let n = self.positions.len();
        let mut c: usize = 0;
        let mut i: usize = 0;
        while i < n
            invariant
                s == self.spec_positions(),
                n == s.len(),
                i <= n,
                c == trader_count(s.take(i as int), who, pool),
                c <= i,
            decreases n - i,
        {
            let p = self.positions.value_at(i);
            assert(s.take(i + 1).drop_last() =~= s.take(i as int));
            if p.owner == who && p.pool == pool {
                c = c + 1;
            }
            i = i + 1;
        }
        assert(s.take(n as int) =~= s);
        c
    }

    /// Adds `amount` to the balance of `who` in `pool`, saturating.
    pub fn update_balance(&mut self, who: AccountId, pool: LiquidityPoolId, amount: Fixed)
        requires
            old(self).wf(),
        ensures
            final(self).wf(),
            final(self).balance(who, pool) == spec_saturate_i128(old(self).balance(who, pool) + amount.inner),
            old(self).same_except_balance(&*final(self), who, pool),
    {
        let b = self.balances(who, pool).saturating_add(&amount);
        self.balances.insert(TraderPool { who, pool }, b);
        proof {
            assert forall|w: AccountId, p: LiquidityPoolId| !(w == who && p == pool) implies #[trigger] self.balance(w, p)
                == old(self).balance(w, p) by {
                assert(TraderPool { who: w, pool: p } != TraderPool { who, pool });
            }
        }
    }

    /// Removes position `id` of `who`, and adds `delta` to the balance of `who` in its pool.
    fn remove_position(&mut self, who: AccountId, id: PositionId, position: Position, delta: Fixed)
        requires
            old(self).wf(),
            old(self).position(id) == Some(position),
            position.owner == who,
        ensures
            final(self).wf(),
            old(self).closed(&*final(self), who, id, delta.inner),
    {
        let ghost s0 = *self;
        self.update_balance(who, position.pool, delta);
        let ghost s1 = *self;
        proof {
            self.positions.lemma_wf();
            assert(self.positions.spec_contains(id));
        }
        self.positions.remove(&id);
        let ghost i = choose|i: int|
            0 <= i < s1.positions.entries().len() && s1.positions.entries()[i].0 == id
                && self.positions.entries() == s1.positions.entries().remove(i);
        let k = PoolPair { pool: position.pool, pair: position.pair };
        proof {
            s1.positions.lemma_wf();
            assert(s1.positions.entries()[i].1 == position);
            lemma_count_positive(s1.positions.entries(), i);
            lemma_count_remove(s1.positions.entries(), i, position.pool, position.pair);
        }
        proof {
            assert(s1.snapshots.spec_get(k) is Some);
            self.snapshots.lemma_wf();
            assert(self.snapshots.spec_contains(k));
            assert(seq_has_key(self.snapshots.entries(), k));
        }
        let snap = self.snapshots.get_copy(&k).unwrap();
        let side = if position.leverage.is_long() {
            snap.long
        } else {
            snap.short
        };
        let new_side = LeveragedAmounts {
            held: side.held.saturating_sub(&position.leveraged_held),
            debits: side.debits.saturating_sub(&position.leveraged_debits),
        };
        let new_snap = if position.leverage.is_long() {
            PositionsSnapshot { positions_count: snap.positions_count - 1, long: new_side, short: snap.short }
        } else {
            PositionsSnapshot { positions_count: snap.positions_count - 1, long: snap.long, short: new_side }
        };
        self.snapshots.insert(k, new_snap);
        proof {
            let e0 = s1.positions.entries();
            let e1 = self.positions.entries();
            assert forall|q: PoolPair| q != k implies count_in(e1, q.pool, q.pair) == count_in(e0, q.pool, q.pair) by {
                lemma_count_remove(e0, i, q.pool, q.pair);
            }
            assert forall|j: int| 0 <= j < e1.len() implies (#[trigger] e1[j]).0 < self.next_position_id by {
                let j1 = if j < i { j } else { j + 1 };
                assert(e1[j] == e0[j1]);
            }
            assert forall|j: int| 0 <= j < e1.len() implies signs_ok((#[trigger] e1[j]).1) by {
                let j1 = if j < i { j } else { j + 1 };
                assert(e1[j] == e0[j1]);
            }
            assert(signs_ok(e0[i].1));
            assert forall|q: PoolPair| #[trigger] self.snapshots.spec_get(q) is Some implies totals_match(
                self.snapshots.spec_get(q)->0,
                e1,
                q.pool,
                q.pair,
            ) by {
                lemma_side_sum_remove(e0, i, q.pool, q.pair, false, true);
                lemma_side_sum_remove(e0, i, q.pool, q.pair, false, false);
                lemma_side_sum_remove(e0, i, q.pool, q.pair, true, true);
                lemma_side_sum_remove(e0, i, q.pool, q.pair, true, false);
                if q == k {
                    lemma_side_sum_sign(e1, q.pool, q.pair, false, true);
                    lemma_side_sum_sign(e1, q.pool, q.pair, false, false);
                    lemma_side_sum_sign(e1, q.pool, q.pair, true, true);
                    lemma_side_sum_sign(e1, q.pool, q.pair, true, false);
                    assert(s1.snapshots.spec_get(k) is Some);
                }
            }
        }
        let ghost s2 = *self;
        if !self.has_position(who, position.pool) && self.balances(who, position.pool).is_negative() {
            self.balances.remove(&TraderPool { who, pool: position.pool });
        }
        proof {
            assert forall|j: PositionId| j != id implies #[trigger] self.position(j) == s0.position(j) by {}
            assert forall|pool: LiquidityPoolId, pair: TradingPair|
                !(pool == position.pool && pair == position.pair) implies #[trigger] self.snapshot(pool, pair) == s0.snapshot(pool, pair) by {
                assert(PoolPair { pool, pair } != k);
            }
            assert forall|w: AccountId, pool: LiquidityPoolId|
                !(w == who && pool == position.pool) implies #[trigger] self.balance(w, pool) == s0.balance(w, pool) by {
                assert(TraderPool { who: w, pool } != TraderPool { who, pool: position.pool });
                assert(self.balance(w, pool) == s2.balance(w, pool));
                assert(s2.balance(w, pool) == s1.balance(w, pool));
            }
            assert(self.snapshots.keys() =~= s1.snapshots.keys());
            assert(s0.spec_positions() == s1.spec_positions());
            assert(s0.spec_positions()[i].0 == id);
            assert(self.spec_positions() == s0.spec_positions().remove(i));
            assert(s2.balance(who, position.pool) == s1.balance(who, position.pool));
            assert(s1.balance(who, position.pool) == spec_saturate_i128(s0.balance(who, position.pool) + delta.inner));
            assert(s0.position(id)->0 == position);
            assert forall|w: AccountId, pool: LiquidityPoolId| #[trigger] self.trader_margin_called(w, pool)
                == s0.trader_margin_called(w, pool) by {
                assert(self.trader_margin_called(w, pool) == s1.trader_margin_called(w, pool));
            }
            assert forall|pool: LiquidityPoolId| #[trigger] self.pool_margin_called(pool) == s0.pool_margin_called(pool) by {
                assert(self.pool_margin_called(pool) == s1.pool_margin_called(pool));
            }
            assert forall|pair: TradingPair| #[trigger] self.thresholds(pair) == s0.thresholds(pair) by {
                assert(self.thresholds(pair) == s1.thresholds(pair));
            }
            assert(exists|i: int|
                0 <= i < s0.spec_positions().len() && (#[trigger] s0.spec_positions()[i]).0 == id
                    && self.spec_positions() == s0.spec_positions().remove(i));
            let b = spec_saturate_i128(s0.balance(who, position.pool) + delta.inner);
            assert(self.balance(who, position.pool) == if !has_position_in(self.spec_positions(), who, position.pool) && b < 0 {
                0
            } else {
                b
            });
            assert(self.snapshot(position.pool, position.pair) == snapshot_after_remove(s0.snapshot(position.pool, position.pair), position));
        }
    }
}

impl MarginProtocol {
    /// Only the margin-called flags may differ.
    pub open spec fn same_except_flags(&self, other: &MarginProtocol) -> bool {
        &&& other.spec_positions() == self.spec_positions()
        &&& forall|id: PositionId| #[trigger] other.position(id) == self.position(id)
        &&& other.snapshot_entries() == self.snapshot_entries()
        &&& forall|pool: LiquidityPoolId, pair: TradingPair| #[trigger] other.snapshot(pool, pair) == self.snapshot(pool, pair)
        &&& other.snapshot_keys() == self.snapshot_keys()
        &&& forall|w: AccountId, pool: LiquidityPoolId| #[trigger] other.balance(w, pool) == self.balance(w, pool)
        &&& forall|pair: TradingPair| #[trigger] other.thresholds(pair) == self.thresholds(pair)
        &&& other.spec_next_position_id() == self.spec_next_position_id()
        &&& other.same_config(self)
    }

    /// Only the margin-called flag of `who` in `pool` may differ.
    pub open spec fn same_except_trader_flag(&self, other: &MarginProtocol, who: AccountId, pool: LiquidityPoolId) -> bool {
        &&& self.same_except_flags(other)
        &&& forall|w: AccountId, p: LiquidityPoolId|
            !(w == who && p == pool) ==> #[trigger] other.trader_margin_called(w, p) == self.trader_margin_called(w, p)
        &&& forall|p: LiquidityPoolId| #[trigger] other.pool_margin_called(p) == self.pool_margin_called(p)
    }

    /// Only the margin-called flag of `pool` may differ.
    pub open spec fn same_except_pool_flag(&self, other: &MarginProtocol, pool: LiquidityPoolId) -> bool {
        &&& self.same_except_flags(other)
        &&& forall|w: AccountId, p: LiquidityPoolId| #[trigger] other.trader_margin_called(w, p)
            == self.trader_margin_called(w, p)
        &&& forall|p: LiquidityPoolId| p != pool ==> #[trigger] other.pool_margin_called(p) == self.pool_margin_called(p)
    }

    /// Moves `amount` of margin from `who` into the protocol, for trading in `pool`.
    pub fn deposit(&mut self, ledger: &mut Ledger, who: AccountId, pool: LiquidityPoolId, amount: Balance) -> (r:
        Result<(), DispatchError>)
        requires
            old(self).wf(),
            old(ledger).wf(),
        ensures
            final(self).wf(),
            final(ledger).wf(),
            old(ledger).same_reserved(&*final(ledger)),
            r is Ok <==> transfer_ok(old(ledger).view(), old(self).spec_currency(), who, old(self).spec_account(), amount),
            r is Err ==> r == Err::<(), DispatchError>(
                crate::ledger::transfer_error(old(ledger).view(), old(self).spec_currency(), who, amount),
            ) && *final(self) == *old(self) && *final(ledger) == *old(ledger),
            r is Ok ==> final(ledger).view() == after_transfer(
                old(ledger).view(),
                old(self).spec_currency(),
                who,
                old(self).spec_account(),
                amount,
            ),
            r is Ok ==> final(self).balance(who, pool) == spec_saturate_i128(
                old(self).balance(who, pool) + fixed_of_balance(amount),
            ) && old(self).same_except_balance(&*final(self), who, pool),
    {
        ledger.transfer(self.liquidity_currency, who, self.account, amount)?;
        self.update_balance(who, pool, fixed_i128_from_u128(amount));
        Ok(())
    }

    /// Moves `amount` of margin of `who` in `pool` out of the protocol to `who`; at most its
    /// free margin.
    pub fn withdraw(
        &mut self,
        pools: &MarginLiquidityPools,
        prices: &Prices,
        ledger: &mut Ledger,
        who: AccountId,
        pool: LiquidityPoolId,
        amount: Balance,
    ) -> (r: Result<(), DispatchError>)
        requires
            old(self).wf(),
            pools.wf(),
            prices.wf(),
            old(ledger).wf(),
        ensures
            final(self).wf(),
            final(ledger).wf(),
            old(ledger).same_reserved(&*final(ledger)),
            r is Err ==> *final(self) == *old(self) && *final(ledger) == *old(ledger),
            ({
                let fm = old(self).spec_free_margin(*pools, *prices, who, pool);
                let ok = transfer_ok(old(ledger).view(), old(self).spec_currency(), old(self).spec_account(), who, amount);
                &&& fm is Err ==> r == Err::<(), DispatchError>(DispatchError::MarginProtocol(fm->Err_0))
                &&& fm is Ok && fm->Ok_0 < fixed_of_balance(amount) ==> r == Err::<(), DispatchError>(
                    DispatchError::MarginProtocol(MarginError::InsufficientFreeMargin),
                )
                &&& fm is Ok && fm->Ok_0 >= fixed_of_balance(amount) && !ok ==> r == Err::<(), DispatchError>(
                    crate::ledger::transfer_error(old(ledger).view(), old(self).spec_currency(), old(self).spec_account(), amount),
                )
                &&& r is Ok <==> fm is Ok && fm->Ok_0 >= fixed_of_balance(amount) && ok
            }),
            r is Ok ==> final(ledger).view() == after_transfer(
                old(ledger).view(),
                old(self).spec_currency(),
                old(self).spec_account(),
                who,
                amount,
            ),
            r is Ok ==> final(self).balance(who, pool) == spec_saturate_i128(
                old(self).balance(who, pool) - fixed_of_balance(amount),
            ) && old(self).same_except_balance(&*final(self), who, pool),
    {
        let free_margin = match self.free(pools, prices, who, pool) {
            Ok(v) => v,
            Err(e) => {
                return Err(merr(e));
            },
        };
        let amount_fixed = fixed_i128_from_u128(amount);
        if free_margin.inner < amount_fixed.inner {
            return Err(merr(MarginError::InsufficientFreeMargin));
        }
        ledger.transfer(self.liquidity_currency, self.account, who, amount)?;
        self.update_balance(who, pool, fixed_i128_mul_signum(amount_fixed, -1));
        Ok(())
    }

    /// Marks `who` in `pool` as margin called; fails if it is safe. Nothing changes if it is
    /// already margin called.
    pub fn trader_margin_call(&mut self, pools: &MarginLiquidityPools, prices: &Prices, who: AccountId, pool: LiquidityPoolId) -> (r:
        Result<(), DispatchError>)
        requires
            old(self).wf(),
            pools.wf(),
            prices.wf(),
        ensures
            final(self).wf(),
            ({
                let safe = old(self).spec_check_trader(*pools, *prices, who, pool, Action::Nothing) == Ok::<
                    Risk,
                    MarginError,
                >(Risk::Safe);
                &&& old(self).trader_margin_called(who, pool) ==> r is Ok && *final(self) == *old(self)
                &&& !old(self).trader_margin_called(who, pool) && safe ==> r == Err::<(), DispatchError>(
                    DispatchError::MarginProtocol(MarginError::SafeTrader),
                ) && *final(self) == *old(self)
                &&& !old(self).trader_margin_called(who, pool) && !safe ==> r is Ok && final(self).trader_margin_called(
                    who,
                    pool,
                ) && old(self).same_except_trader_flag(&*final(self), who, pool)
            }),
    {
        if !self.is_trader_margin_called(who, pool) {
            match self.check_trader(pools, prices, who, pool, Action::Nothing) {
                Ok(Risk::Safe) => {
                    return Err(merr(MarginError::SafeTrader));
                },
                _ => {
                    self.margin_called_traders.insert(TraderPool { who, pool }, ());
                    proof {
                        self.lemma_flags(&*old(self));
                        assert forall|w: AccountId, p: LiquidityPoolId| !(w == who && p == pool) implies #[trigger] self.trader_margin_called(w, p)
                            == old(self).trader_margin_called(w, p) by {
                            assert(TraderPool { who: w, pool: p } != TraderPool { who, pool });
                        }
                    }
                },
            }
        }
        Ok(())
    }

    /// Removes the margin-called mark of `who` in `pool`; fails if it is not safe. Nothing
    /// changes if it is not margin called.
    pub fn trader_become_safe(&mut self, pools: &MarginLiquidityPools, prices: &Prices, who: AccountId, pool: LiquidityPoolId) -> (r:
        Result<(), DispatchError>)
        requires
            old(self).wf(),
            pools.wf(),
            prices.wf(),
        ensures
            final(self).wf(),
            ({
                let safe = old(self).spec_check_trader(*pools, *prices, who, pool, Action::Nothing) == Ok::<
                    Risk,
                    MarginError,
                >(Risk::Safe);
                &&& !old(self).trader_margin_called(who, pool) ==> r is Ok && *final(self) == *old(self)
                &&& old(self).trader_margin_called(who, pool) && !safe ==> r == Err::<(), DispatchError>(
                    DispatchError::MarginProtocol(MarginError::UnsafeTrader),
                ) && *final(self) == *old(self)
                &&& old(self).trader_margin_called(who, pool) && safe ==> r is Ok && !final(self).trader_margin_called(
                    who,
                    pool,
                ) && old(self).same_except_trader_flag(&*final(self), who, pool)
            }),
    {
        if self.is_trader_margin_called(who, pool) {
            match self.check_trader(pools, prices, who, pool, Action::Nothing) {
                Ok(Risk::Safe) => {
                    self.margin_called_traders.remove(&TraderPool { who, pool });
                    proof {
                        self.lemma_flags(&*old(self));
                        assert forall|w: AccountId, p: LiquidityPoolId| !(w == who && p == pool) implies #[trigger] self.trader_margin_called(w, p)
                            == old(self).trader_margin_called(w, p) by {
                            assert(TraderPool { who: w, pool: p } != TraderPool { who, pool });
                        }
                    }
                },
                _ => {
                    return Err(merr(MarginError::UnsafeTrader));
                },
            }
        }
        Ok(())
    }

    /// Marks `pool` as margin called; fails if it is safe. Nothing changes if it is already
    /// margin called.
    pub fn liquidity_pool_margin_call(&mut self, pools: &MarginLiquidityPools, prices: &Prices, pool: LiquidityPoolId) -> (r:
        Result<(), DispatchError>)
        requires
            old(self).wf(),
            pools.wf(),
            prices.wf(),
        ensures
            final(self).wf(),
            ({
                let safe = old(self).spec_ensure_pool_safe(*pools, *prices, pool, Action::Nothing) is Ok;
                &&& old(self).pool_margin_called(pool) ==> r is Ok && *final(self) == *old(self)
                &&& !old(self).pool_margin_called(pool) && safe ==> r == Err::<(), DispatchError>(
                    DispatchError::MarginProtocol(MarginError::SafePool),
                ) && *final(self) == *old(self)
                &&& !old(self).pool_margin_called(pool) && !safe ==> r is Ok && final(self).pool_margin_called(pool)
                    && old(self).same_except_pool_flag(&*final(self), pool)
            }),
    {
        if !self.is_pool_margin_called(pool) {
            if self.ensure_pool_safe(pools, prices, pool, Action::Nothing).is_err() {
                self.margin_called_pools.insert(pool, ());
                proof {
                    self.lemma_flags(&*old(self));
                }
            } else {
                return Err(merr(MarginError::SafePool));
            }
        }
        Ok(())
    }

    /// Removes the margin-called mark of `pool`; fails if it is not safe. Nothing changes if it
    /// is not margin called.
    pub fn liquidity_pool_become_safe(&mut self, pools: &MarginLiquidityPools, prices: &Prices, pool: LiquidityPoolId) -> (r:
        Result<(), DispatchError>)
        requires
            old(self).wf(),
            pools.wf(),
            prices.wf(),
        ensures
            final(self).wf(),
            ({
                let safe = old(self).spec_ensure_pool_safe(*pools, *prices, pool, Action::Nothing) is Ok;
                &&& !old(self).pool_margin_called(pool) ==> r is Ok && *final(self) == *old(self)
                &&& old(self).pool_margin_called(pool) && !safe ==> r == Err::<(), DispatchError>(
                    DispatchError::MarginProtocol(MarginError::UnsafePool),
                ) && *final(self) == *old(self)
                &&& old(self).pool_margin_called(pool) && safe ==> r is Ok && !final(self).pool_margin_called(pool)
                    && old(self).same_except_pool_flag(&*final(self), pool)
            }),
    {
        if self.is_pool_margin_called(pool) {
            if self.ensure_pool_safe(pools, prices, pool, Action::Nothing).is_ok() {
                self.margin_called_pools.remove(&pool);
                proof {
                    self.lemma_flags(&*old(self));
                }
            } else {
                return Err(merr(MarginError::UnsafePool));
            }
        }
        Ok(())
    }

    /// Two states that differ at most in the flags agree on everything else.
    proof fn lemma_flags(&self, other: &MarginProtocol)
        requires
            self.positions == other.positions,
            self.snapshots == other.snapshots,
            self.balances == other.balances,
            self.risk_thresholds == other.risk_thresholds,
            self.next_position_id == other.next_position_id,
            self.account == other.account,
            self.treasury == other.treasury,
            self.trader_max_open_positions == other.trader_max_open_positions,
            self.pool_max_open_positions == other.pool_max_open_positions,
            self.update_origin == other.update_origin,
            self.liquidity_currency == other.liquidity_currency,
        ensures
            other.same_except_flags(self),
    {
    }
}

impl MarginProtocol {
    /// The position `who` opens with `open_position`, once every check has passed; or the
    /// error of the first check that fails. The leveraged debits are the leveraged amount at
    /// the ask price for a long and at the bid price for a short, which `price` bounds.
    pub open spec fn spec_open(
        &self,
        pools: MarginLiquidityPools,
        prices: Prices,
        who: AccountId,
        pool: LiquidityPoolId,
        pair: TradingPair,
        leverage: Leverage,
        leveraged_amount: Balance,
        price: Price,
    ) -> Result<Position, MarginError> {
        if !(self.snapshot(pool, pair).positions_count < self.spec_pool_max()) {
            Err(MarginError::CannotOpenMorePosition)
        } else if !(trader_count(self.spec_positions(), who, pool) < self.spec_trader_max()) {
            Err(MarginError::CannotOpenMorePosition)
        } else if self.trader_margin_called(who, pool) {
            Err(MarginError::MarginCalledTrader)
        } else if self.pool_margin_called(pool) {
            Err(MarginError::MarginCalledPool)
        } else {
            let held = fixed_of_balance(leveraged_amount);
            let short = spec_is_short(leverage);
            let debits_price = if short {
                spec_bid_price(pools, prices, pool, pair, Some(price))
            } else {
                spec_ask_price(pools, prices, pool, pair, Some(price))
            };
            match debits_price {
                Err(e) => Err(e),
                Ok(dp) => match spec_fixed_mul(held, dp) {
                    None => Err(MarginError::NumOutOfBound),
                    Some(debits) => match spec_usd_value(prices, pair.quote, debits) {
                        Err(e) => Err(e),
                        Ok(usd) => match pools.spec_can_open(pool, pair, leverage, spec_u128_from_fixed(Fixed { inner: usd })) {
                            Err(oe) => Err(open_error(oe)),
                            Ok(_) => {
                                let margin = spec_fixed_div(usd, (spec_leverage_value(leverage) * 1_000_000_000_000_000_000) as i128)->0;
                                let acc = pools.accumulated(pool, pair);
                                let position = Position {
                                    owner: who,
                                    pool,
                                    pair,
                                    leverage,
                                    leveraged_held: Fixed { inner: spec_saturate_i128(held * if short { -1int } else { 1int }) },
                                    leveraged_debits: Fixed { inner: spec_saturate_i128(debits * if short { 1int } else { -1int }) },
                                    open_accumulated_swap_rate: if short {
                                        acc.short
                                    } else {
                                        acc.long
                                    },
                                    margin_held: Fixed { inner: margin },
                                };
                                match self.spec_free_margin(pools, prices, who, pool) {
                                    Err(e) => Err(e),
                                    Ok(fm) => if fm < margin {
                                        Err(MarginError::InsufficientFreeMargin)
                                    } else {
                                        match self.spec_check_trader(pools, prices, who, pool, Action::OpenPosition(position)) {
                                            Err(e) => Err(e),
                                            Ok(Risk::Safe) => match self.spec_ensure_pool_safe(
                                                pools,
                                                prices,
                                                pool,
                                                Action::OpenPosition(position),
                                            ) {
                                                Err(e) => Err(e),
                                                Ok(_) => Ok(position),
                                            },
                                            Ok(_) => Err(MarginError::UnsafeTrader),
                                        }
                                    },
                                }
                            },
                        },
                    },
                },
            }
        }
    }

    /// `Ok` if the pair in `pool` and `who` in `pool` are both below their maximum number of
    /// open positions.
    fn ensure_can_open_more_position(&self, who: AccountId, pool: LiquidityPoolId, pair: TradingPair) -> (r: Result<
        (),
        MarginError,
    >)
        requires
            self.wf(),
        ensures
            r == if self.snapshot(pool, pair).positions_count < self.spec_pool_max() && trader_count(
                self.spec_positions(),
                who,
                pool,
            ) < self.spec_trader_max() {
                Ok::<(), MarginError>(())
            } else {
                Err::<(), MarginError>(MarginError::CannotOpenMorePosition)
            },
    {
        let snap = self.pool_positions_snapshots(pool, pair);
        if !((snap.positions_count as u128) < (self.pool_max_open_positions as u128)) {
            return Err(MarginError::CannotOpenMorePosition);
        }
        if !(self.trader_positions_count(who, pool) < self.trader_max_open_positions) {
            return Err(MarginError::CannotOpenMorePosition);
        }
        Ok(())
    }

    /// Opens a position of `who` in `pool_id`: `leveraged_amount` of the base currency of
    /// `pair`, at a price no worse than `price`. Returns the id of the position.
    #[verifier::rlimit(40)]
    pub fn open_position(
        &mut self,
        pools: &MarginLiquidityPools,
        prices: &Prices,
        who: AccountId,
        pool_id: LiquidityPoolId,
        pair: TradingPair,
        leverage: Leverage,
        leveraged_amount: Balance,
        price: Price,
    ) -> (r: Result<PositionId, DispatchError>)
        requires
            old(self).wf(),
            pools.wf(),
            prices.wf(),
        ensures
            final(self).wf(),
            r is Err ==> *final(self) == *old(self),
            ({
                let q = old(self).spec_open(*pools, *prices, who, pool_id, pair, leverage, leveraged_amount, price);
                let next = old(self).spec_next_position_id();
                &&& q is Err ==> r == Err::<PositionId, DispatchError>(DispatchError::MarginProtocol(q->Err_0))
                &&& q is Ok && next == u64::MAX ==> r == Err::<PositionId, DispatchError>(
                    DispatchError::MarginProtocol(MarginError::NoAvailablePositionId),
                )
                &&& q is Ok && next < u64::MAX && snapshot_after_insert(old(self).snapshot(pool_id, pair), q->Ok_0) is None
                    ==> r == Err::<PositionId, DispatchError>(DispatchError::MarginProtocol(MarginError::NumOutOfBound))
                &&& r is Ok <==> q is Ok && next < u64::MAX && snapshot_after_insert(
                    old(self).snapshot(pool_id, pair),
                    q->Ok_0,
                ) is Some
                &&& r is Ok ==> r->Ok_0 == next && old(self).inserted(&*final(self), next, q->Ok_0)
                &&& r is Ok && !spec_is_short(leverage) ==> q->Ok_0.leveraged_held.inner >= 0
                    && q->Ok_0.leveraged_debits.inner <= 0
                &&& r is Ok && spec_is_short(leverage) ==> q->Ok_0.leveraged_held.inner <= 0
                    && q->Ok_0.leveraged_debits.inner >= 0
            }),
    {
        if let Err(e) = self.ensure_can_open_more_position(who, pool_id, pair) {
            return Err(merr(e));
        }
        if self.is_trader_margin_called(who, pool_id) {
            return Err(merr(MarginError::MarginCalledTrader));
        }
        if self.is_pool_margin_called(pool_id) {
            return Err(merr(MarginError::MarginCalledPool));
        }
        let is_long = leverage.is_long();
        let (held_signum, debit_signum): (i128, i128) = if is_long {
            (1, -1)
        } else {
            (-1, 1)
        };
        let leveraged_held = fixed_i128_from_u128(leveraged_amount);
        let debits_price = if is_long {
            ask_price(pools, prices, pool_id, pair, Some(price))
        } else {
            bid_price(pools, prices, pool_id, pair, Some(price))
        };
        let debits_price = match debits_price {
            Ok(v) => v,
            Err(e) => {
                return Err(merr(e));
            },
        };
        let leveraged_debits = match leveraged_held.checked_mul(&debits_price) {
            Some(v) => v,
            None => {
                return Err(merr(MarginError::NumOutOfBound));
            },
        };
        let leveraged_held_in_usd = match usd_value(prices, pair.quote, leveraged_debits) {
            Ok(v) => v,
            Err(e) => {
                return Err(merr(e));
            },
        };
        if let Err(e) = pools.ensure_can_open_position(pool_id, pair, leverage, u128_from_fixed_i128(leveraged_held_in_usd)) {
            return Err(merr(from_open_error(e)));
        }
        let leverage_value = Fixed::saturating_from_integer(leverage.value() as i128);
        proof {
            crate::fixed::lemma_div_by_whole(leveraged_held_in_usd.inner, spec_leverage_value(leverage) as int);
        }
        let margin_held = leveraged_held_in_usd.checked_div(&leverage_value).unwrap();
        let open_accumulated_swap_rate = pools.accumulated_swap_rate(pool_id, pair, is_long);
        let position = Position {
            owner: who,
            pool: pool_id,
            pair,
            leverage,
            leveraged_held: fixed_i128_mul_signum(leveraged_held, held_signum),
            leveraged_debits: fixed_i128_mul_signum(leveraged_debits, debit_signum),
            open_accumulated_swap_rate,
            margin_held,
        };
        proof {
            assert(leveraged_held.inner >= 0);
            assert(debits_price.inner >= 0);
            assert(leveraged_debits.inner >= 0);
            if is_long {
                assert(held_signum == 1 && debit_signum == -1);
                assert(leveraged_held.inner * held_signum == leveraged_held.inner) by (nonlinear_arith)
                    requires
                        held_signum == 1,
                ;
                assert(leveraged_debits.inner * debit_signum == -leveraged_debits.inner) by (nonlinear_arith)
                    requires
                        debit_signum == -1,
                ;
                assert(position.leveraged_held.inner >= 0 && position.leveraged_debits.inner <= 0);
            } else {
                assert(held_signum == -1 && debit_signum == 1);
                assert(leveraged_held.inner * held_signum == -leveraged_held.inner) by (nonlinear_arith)
                    requires
                        held_signum == -1,
                ;
                assert(leveraged_debits.inner * debit_signum == leveraged_debits.inner) by (nonlinear_arith)
                    requires
                        debit_signum == 1,
                ;
                assert(position.leveraged_held.inner <= 0 && position.leveraged_debits.inner >= 0);
            }
        }
        let free_margin = match self.free(pools, prices, who, pool_id) {
            Ok(v) => v,
            Err(e) => {
                return Err(merr(e));
            },
        };
        if free_margin.inner < margin_held.inner {
            return Err(merr(MarginError::InsufficientFreeMargin));
        }
        match self.check_trader(pools, prices, who, pool_id, Action::OpenPosition(position)) {
            Ok(Risk::Safe) => {},
            Ok(_) => {
                return Err(merr(MarginError::UnsafeTrader));
            },
            Err(e) => {
                return Err(merr(e));
            },
        }
        if let Err(e) = self.ensure_pool_safe(pools, prices, pool_id, Action::OpenPosition(position)) {
            return Err(merr(e));
        }
        match self.insert_position(position) {
            Ok(id) => Ok(id),
            Err(e) => Err(merr(e)),
        }
    }
}

impl MarginProtocol {
    /// How closing position `id` of `who` settles, at a market price bounded by `price`. A
    /// profit is realized up to the liquidity of the pool, less what `who` owes the pool; a
    /// loss is realized up to the equity of `who` without the position, and paid into the
    /// pool up to the balance of `who`.
    pub open spec fn spec_settlement(
        &self,
        pools: MarginLiquidityPools,
        prices: Prices,
        who: AccountId,
        id: PositionId,
        price: Option<Price>,
    ) -> Result<Settlement, MarginError> {
        match self.position(id) {
            None => Err(MarginError::PositionNotFound),
            Some(p) => if p.owner != who {
                Err(MarginError::PositionNotOpenedByTrader)
            } else {
                match spec_unrealized_pl_and_price(pools, prices, p, price) {
                    Err(e) => Err(e),
                    Ok(pm) => match spec_accumulated_swap_rate_of_position(pools, prices, p) {
                        Err(e) => Err(e),
                        Ok(acc) => if !fits(pm.0 + acc) {
                            Err(MarginError::NumOutOfBound)
                        } else {
                            let u = (pm.0 + acc) as i128;
                            let bal = self.balance(who, p.pool);
                            if u > 0 {
                                let realized = imin(fixed_of_balance(pools.spec_base().spec_liquidity(p.pool)), u);
                                let w = if bal < 0 {
                                    imax(spec_saturate_i128(realized + bal), 0)
                                } else {
                                    realized
                                };
                                Ok(
                                    Settlement {
                                        profit: true,
                                        realized,
                                        pool_amount: spec_u128_from_fixed(Fixed { inner: w }),
                                        market_price: pm.1,
                                    },
                                )
                            } else {
                                match self.spec_equity(pools, prices, who, p.pool) {
                                    Err(e) => Err(e),
                                    Ok(eq) => {
                                        let ua = spec_saturating_abs(u);
                                        let realized = imin(imax(spec_saturate_i128(eq + ua), 0), ua);
                                        let d = imin(imax(bal, 0), realized);
                                        Ok(
                                            Settlement {
                                                profit: false,
                                                realized,
                                                pool_amount: spec_u128_from_fixed(Fixed { inner: d }),
                                                market_price: pm.1,
                                            },
                                        )
                                    },
                                }
                            }
                        },
                    },
                }
            },
        }
    }

    /// Closing a position moves between its pool and the margin account exactly the change of
    /// the part of the trader's balance that the margin account owes: on a profit the pool pays
    /// `max(b + realized, 0) - max(b, 0)`, so a debt `b < 0` is repaid out of the profit first;
    /// on a loss the pool receives `max(b, 0) - max(b - realized, 0)`. Here `b` is the trader's
    /// balance in the pool before, and the realized amount is never negative.
    pub proof fn lemma_settlement_moves_the_owed_change(
        &self,
        pools: MarginLiquidityPools,
        prices: Prices,
        who: AccountId,
        id: PositionId,
        price: Option<Price>,
    )
        requires
            self.spec_settlement(pools, prices, who, id, price) is Ok,
        ensures
            ({
                let s = self.spec_settlement(pools, prices, who, id, price)->Ok_0;
                let b = self.balance(who, self.position(id)->0.pool) as int;
                let r = s.realized as int;
                let owed_before = if b > 0 { b } else { 0 };
                &&& r >= 0
                &&& s.profit ==> s.pool_amount == (if b + r > 0 { b + r } else { 0 }) - owed_before
                &&& !s.profit ==> s.pool_amount == owed_before - (if b - r > 0 { b - r } else { 0 })
            }),
    {
    }

    /// The liquidity move of a settlement succeeds.
    pub open spec fn settlement_ok(&self, pools: MarginLiquidityPools, b: Balances, pool: LiquidityPoolId, s: Settlement) -> bool {
        s.pool_amount == 0 || if s.profit {
            pool_withdraw_ok(pools.spec_base(), b, pool, self.spec_account(), s.pool_amount)
        } else {
            pool_deposit_ok(pools.spec_base(), b, pool, self.spec_account(), s.pool_amount)
        }
    }

    /// The error of a failing liquidity move of a settlement.
    pub open spec fn settlement_error(&self, pools: MarginLiquidityPools, b: Balances, pool: LiquidityPoolId, s: Settlement) -> DispatchError {
        if s.profit {
            pool_withdraw_error(pools.spec_base(), b, pool, s.pool_amount)
        } else {
            pool_deposit_error(pools.spec_base(), b, pool, self.spec_account(), s.pool_amount)
        }
    }

    /// What a successful settlement adds to the balance of the trader.
    pub open spec fn settlement_delta(s: Settlement) -> i128 {
        if s.profit {
            s.realized
        } else {
            spec_saturate_i128(s.realized * -1)
        }
    }

    /// Whether `after` is `before` with the liquidity move of a settlement done.
    pub open spec fn settled(
        &self,
        pools_before: MarginLiquidityPools,
        pools_after_close: MarginLiquidityPools,
        b_before: Balances,
        b_after: Balances,
        pool: LiquidityPoolId,
        s: Settlement,
    ) -> bool {
        let base = pools_before.spec_base();
        &&& s.pool_amount == 0 ==> b_after == b_before && pools_after_close.spec_base() == base
        &&& s.pool_amount > 0 && s.profit ==> b_after == after_transfer(
            b_before,
            base.spec_currency(),
            base.spec_account(),
            self.spec_account(),
            s.pool_amount,
        ) && pools_after(base, pools_after_close.spec_base(), pool, base.spec_liquidity(pool) - s.pool_amount)
        &&& s.pool_amount > 0 && !s.profit ==> b_after == after_transfer(
            b_before,
            base.spec_currency(),
            self.spec_account(),
            base.spec_account(),
            s.pool_amount,
        ) && pools_after(base, pools_after_close.spec_base(), pool, base.spec_liquidity(pool) + s.pool_amount)
    }

    fn do_close_position(
        &mut self,
        pools: &mut MarginLiquidityPools,
        prices: &Prices,
        ledger: &mut Ledger,
        who: AccountId,
        id: PositionId,
        price: Option<Price>,
    ) -> (r: Result<(), DispatchError>)
        requires
            old(self).wf(),
            old(pools).wf(),
            prices.wf(),
            old(ledger).wf(),
        ensures
            final(self).wf(),
            final(pools).wf(),
            final(ledger).wf(),
            old(ledger).same_reserved(&*final(ledger)),
            final(pools).same_except_base(&*old(pools)),
            r is Err ==> *final(self) == *old(self) && *final(ledger) == *old(ledger) && *final(pools) == *old(pools),
            ({
                let q = old(self).spec_settlement(*old(pools), *prices, who, id, price);
                let pool = old(self).position(id)->0.pool;
                let b0 = old(ledger).view();
                &&& q is Err ==> r == Err::<(), DispatchError>(DispatchError::MarginProtocol(q->Err_0))
                &&& q is Ok && !old(self).settlement_ok(*old(pools), b0, pool, q->Ok_0) ==> r == Err::<(), DispatchError>(
                    old(self).settlement_error(*old(pools), b0, pool, q->Ok_0),
                )
                &&& r is Ok <==> q is Ok && old(self).settlement_ok(*old(pools), b0, pool, q->Ok_0)
                &&& r is Ok ==> old(self).closed(&*final(self), who, id, Self::settlement_delta(q->Ok_0))
                    && old(self).settled(*old(pools), *final(pools), b0, final(ledger).view(), pool, q->Ok_0)
            }),
    {
        let position = match self.positions(id) {
            Some(p) => p,
            None => {
                return Err(merr(MarginError::PositionNotFound));
            },
        };
        if position.owner != who {
            return Err(merr(MarginError::PositionNotOpenedByTrader));
        }
        let (unrealized_pl, _market_price) = match unrealized_pl_and_market_price_of_position(pools, prices, &position, price) {
            Ok(v) => v,
            Err(e) => {
                return Err(merr(e));
            },
        };
        let accumulated = match accumulated_swap_rate_of_position(pools, prices, &position) {
            Ok(v) => v,
            Err(e) => {
                return Err(merr(e));
            },
        };
        let unrealized = match unrealized_pl.checked_add(&accumulated) {
            Some(v) => v,
            None => {
                return Err(merr(MarginError::NumOutOfBound));
            },
        };
        let balance = self.balances(who, position.pool);
        let account = self.account;
        proof {
            pools.lemma_base_wf();
        }
        if unrealized.is_positive() {
            let pool_liquidity = fixed_i128_from_u128(pools.base().liquidity(position.pool));
            let realizable = if pool_liquidity.inner <= unrealized.inner {
                pool_liquidity
            } else {
                unrealized
            };
            let mut pool_withdraw = realizable;
            if balance.is_negative() {
                let w = pool_withdraw.saturating_add(&balance);
                pool_withdraw = if w.inner >= 0 {
                    w
                } else {
                    Fixed::zero()
                };
            }
            if !pool_withdraw.is_zero() {
                pools.base_mut().withdraw_liquidity_to(ledger, account, position.pool, u128_from_fixed_i128(pool_withdraw))?;
            }
            self.remove_position(who, id, position, realizable);
        } else {
            let equity = match self.equity(pools, prices, who, position.pool) {
                Ok(v) => v,
                Err(e) => {
                    return Err(merr(e));
                },
            };
            let unrealized_abs = unrealized.saturating_abs();
            let with_equity = equity.saturating_add(&unrealized_abs);
            let floored = if with_equity.inner >= 0 {
                with_equity
            } else {
                Fixed::zero()
            };
            let realizable = if floored.inner <= unrealized_abs.inner {
                floored
            } else {
                unrealized_abs
            };
            let positive_balance = if balance.inner >= 0 {
                balance
            } else {
                Fixed::zero()
            };
            let pool_deposit = if positive_balance.inner <= realizable.inner {
                positive_balance
            } else {
                realizable
            };
            if !pool_deposit.is_zero() {
                pools.base_mut().deposit_liquidity(ledger, account, position.pool, u128_from_fixed_i128(pool_deposit))?;
            }
            self.remove_position(who, id, position, fixed_i128_mul_signum(realizable, -1));
        }
        Ok(())
    }

    /// Closes position `id` of `who` at a market price no worse than `price`, realizing its
    /// profit or loss against the pool.
    pub fn close_position(
        &mut self,
        pools: &mut MarginLiquidityPools,
        prices: &Prices,
        ledger: &mut Ledger,
        who: AccountId,
        id: PositionId,
        price: Price,
    ) -> (r: Result<(), DispatchError>)
        requires
            old(self).wf(),
            old(pools).wf(),
            prices.wf(),
            old(ledger).wf(),
        ensures
            final(self).wf(),
            final(pools).wf(),
            final(ledger).wf(),
            old(ledger).same_reserved(&*final(ledger)),
            final(pools).same_except_base(&*old(pools)),
            r is Err ==> *final(self) == *old(self) && *final(ledger) == *old(ledger) && *final(pools) == *old(pools),
            ({
                let q = old(self).spec_settlement(*old(pools), *prices, who, id, Some(price));
                let pool = old(self).position(id)->0.pool;
                let b0 = old(ledger).view();
                &&& q is Err ==> r == Err::<(), DispatchError>(DispatchError::MarginProtocol(q->Err_0))
                &&& q is Ok && !old(self).settlement_ok(*old(pools), b0, pool, q->Ok_0) ==> r == Err::<(), DispatchError>(
                    old(self).settlement_error(*old(pools), b0, pool, q->Ok_0),
                )
                &&& r is Ok <==> q is Ok && old(self).settlement_ok(*old(pools), b0, pool, q->Ok_0)
                &&& r is Ok ==> old(self).closed(&*final(self), who, id, Self::settlement_delta(q->Ok_0))
                    && old(self).settled(*old(pools), *final(pools), b0, final(ledger).view(), pool, q->Ok_0)
            }),
    {
        self.do_close_position(pools, prices, ledger, who, id, Some(price))
    }
}

impl MarginProtocol {
    /// The amount a force closed position pays from its pool to the treasury: twice the
    /// spread on its leveraged held amount in USD (the spread profit and the same again as
    /// penalty). The spread is the bid spread of a long and the ask spread of a short in `pool`.
    pub open spec fn spec_penalty(&self, pools: MarginLiquidityPools, prices: Prices, pool: LiquidityPoolId, id: PositionId) -> Result<
        i128,
        MarginError,
    > {
        match self.position(id) {
            None => Err(MarginError::PositionNotFound),
            Some(p) => {
                let short = spec_is_short(p.leverage);
                let spread = if short {
                    pools.pool_pair_option(pool, p.pair).ask_spread
                } else {
                    pools.pool_pair_option(pool, p.pair).bid_spread
                };
                match spread {
                    None => Err(
                        if short {
                            MarginError::NoAskSpread
                        } else {
                            MarginError::NoBidSpread
                        },
                    ),
                    Some(sp) => match spec_fixed_mul(p.leveraged_held.inner, fixed_of_price(sp)) {
                        None => Err(MarginError::NumOutOfBound),
                        Some(x) => match spec_usd_value(prices, p.pair.quote, x) {
                            Err(e) => Err(e),
                            Ok(u) => if fits(u + u) {
                                Ok((u + u) as i128)
                            } else {
                                Err(MarginError::NumOutOfBound)
                            },
                        },
                    },
                }
            },
        }
    }

    /// The liquidity of `pool` after a settlement.
    pub open spec fn settled_liquidity(pools: MarginLiquidityPools, pool: LiquidityPoolId, s: Settlement) -> int {
        let l = pools.spec_base().spec_liquidity(pool);
        if s.pool_amount == 0 {
            l as int
        } else if s.profit {
            l - s.pool_amount
        } else {
            l + s.pool_amount
        }
    }

    /// The token balances after a settlement.
    pub open spec fn settled_balances(&self, pools: MarginLiquidityPools, b: Balances, s: Settlement) -> Balances {
        let base = pools.spec_base();
        if s.pool_amount == 0 {
            b
        } else if s.profit {
            after_transfer(b, base.spec_currency(), base.spec_account(), self.spec_account(), s.pool_amount)
        } else {
            after_transfer(b, base.spec_currency(), self.spec_account(), base.spec_account(), s.pool_amount)
        }
    }

    /// Force closes position `id` of a pool at stop out: the position is closed for its owner
    /// at the market price, then its penalty is paid from its pool to the treasury, up to the
    /// liquidity left. An error of the payment leaves the position closed.
    pub fn liquidity_pool_close_position(
        &mut self,
        pools: &mut MarginLiquidityPools,
        prices: &Prices,
        ledger: &mut Ledger,
        pool: LiquidityPoolId,
        id: PositionId,
    ) -> (r: Result<(), DispatchError>)
        requires
            old(self).wf(),
            old(pools).wf(),
            prices.wf(),
            old(ledger).wf(),
        ensures
            final(self).wf(),
            final(pools).wf(),
            final(ledger).wf(),
            old(ledger).same_reserved(&*final(ledger)),
            final(pools).same_except_base(&*old(pools)),
            ({
                let q = old(self).spec_penalty(*old(pools), *prices, pool, id);
                let p = old(self).position(id)->0;
                let b0 = old(ledger).view();
                let base0 = old(pools).spec_base();
                let c = old(self).spec_settlement(*old(pools), *prices, p.owner, id, None);
                &&& q is Err ==> r == Err::<(), DispatchError>(DispatchError::MarginProtocol(q->Err_0))
                    && *final(self) == *old(self) && *final(ledger) == *old(ledger) && *final(pools) == *old(pools)
                &&& q is Ok && c is Err ==> r == Err::<(), DispatchError>(DispatchError::MarginProtocol(c->Err_0))
                    && *final(self) == *old(self) && *final(ledger) == *old(ledger) && *final(pools) == *old(pools)
                &&& q is Ok && c is Ok && !old(self).settlement_ok(*old(pools), b0, p.pool, c->Ok_0) ==> r == Err::<
                    (),
                    DispatchError,
                >(old(self).settlement_error(*old(pools), b0, p.pool, c->Ok_0)) && *final(self) == *old(self)
                    && *final(ledger) == *old(ledger) && *final(pools) == *old(pools)
                &&& q is Ok && c is Ok && old(self).settlement_ok(*old(pools), b0, p.pool, c->Ok_0) ==> {
                    let s = c->Ok_0;
                    let mid_liq = Self::settled_liquidity(*old(pools), p.pool, s);
                    let mid_b = old(self).settled_balances(*old(pools), b0, s);
                    let owed = spec_u128_from_fixed(Fixed { inner: q->Ok_0 });
                    let realized = if mid_liq <= owed {
                        mid_liq
                    } else {
                        owed as int
                    };
                    let exists = base0.pool(p.pool) is Some;
                    let ok = exists && transfer_ok(
                        mid_b,
                        base0.spec_currency(),
                        base0.spec_account(),
                        old(self).spec_treasury(),
                        realized as u128,
                    );
                    &&& old(self).closed(&*final(self), p.owner, id, Self::settlement_delta(s))
                    &&& base0.same_except_balance(&final(pools).spec_base(), p.pool)
                    &&& ok ==> r is Ok && final(ledger).view() == after_transfer(
                        mid_b,
                        base0.spec_currency(),
                        base0.spec_account(),
                        old(self).spec_treasury(),
                        realized as u128,
                    ) && final(pools).spec_base().spec_liquidity(p.pool) == mid_liq - realized
                    &&& !ok ==> final(ledger).view() == mid_b && final(pools).spec_base().spec_liquidity(p.pool) == mid_liq
                        && r == Err::<(), DispatchError>(
                        if !exists {
                            DispatchError::BaseLiquidityPools(crate::error::BasePoolsError::PoolNotFound)
                        } else {
                            crate::ledger::transfer_error(mid_b, base0.spec_currency(), base0.spec_account(), realized as u128)
                        },
                    )
                }
            }),
    {
        let position = match self.positions(id) {
            Some(p) => p,
            None => {
                return Err(merr(MarginError::PositionNotFound));
            },
        };
        let spread = if position.leverage.is_long() {
            match pools.bid_spread(pool, position.pair) {
                Some(s) => fixed_i128_from_fixed_u128(s),
                None => {
                    return Err(merr(MarginError::NoBidSpread));
                },
            }
        } else {
            match pools.ask_spread(pool, position.pair) {
                Some(s) => fixed_i128_from_fixed_u128(s),
                None => {
                    return Err(merr(MarginError::NoAskSpread));
                },
            }
        };
        let spread_profit = match position.leveraged_held.checked_mul(&spread) {
            Some(v) => v,
            None => {
                return Err(merr(MarginError::NumOutOfBound));
            },
        };
        let spread_profit_in_usd = match usd_value(prices, position.pair.quote, spread_profit) {
            Ok(v) => v,
            Err(e) => {
                return Err(merr(e));
            },
        };
        let penalty = spread_profit_in_usd;
        let sub_amount = match spread_profit_in_usd.checked_add(&penalty) {
            Some(v) => v,
            None => {
                return Err(merr(MarginError::NumOutOfBound));
            },
        };
        let ghost base0 = pools.spec_base();
        self.do_close_position(pools, prices, ledger, position.owner, id, None)?;
        let ghost base1 = pools.spec_base();
        proof {
            pools.lemma_base_wf();
        }
        let liquidity = pools.base().liquidity(position.pool);
        let owed = u128_from_fixed_i128(sub_amount);
        let realized = if liquidity <= owed {
            liquidity
        } else {
            owed
        };
        let treasury = self.treasury;
        let res = pools.base_mut().withdraw_liquidity_to(ledger, treasury, position.pool, realized);
        proof {
            if base1 != base0 {
                BaseLiquidityPools::lemma_same_except_balance_trans(base0, base1, pools.spec_base(), position.pool);
            }
        }
        res
    }
}

/// The margin protocol together with its pools and the ledger.
pub type ProtocolState = (MarginProtocol, MarginLiquidityPools, Ledger);

/// Closing position `id` of `who` in `pool` at the market price takes `a` to `b`: nothing
/// changes where the settlement fails or cannot be paid; otherwise the position is closed
/// and settled against the pool.
pub open spec fn market_close_step(
    a: ProtocolState,
    b: ProtocolState,
    prices: Prices,
    who: AccountId,
    pool: LiquidityPoolId,
    id: PositionId,
) -> bool {
    let q = a.0.spec_settlement(a.1, prices, who, id, None);
    let b0 = a.2.view();
    let done = q is Ok && a.0.settlement_ok(a.1, b0, pool, q->Ok_0);
    &&& b.0.wf() && b.1.wf() && b.2.wf()
    &&& b.1.same_except_base(&a.1)
    &&& a.2.same_reserved(&b.2)
    &&& !done ==> b == a
    &&& done ==> a.0.closed(&b.0, who, id, MarginProtocol::settlement_delta(q->Ok_0)) && a.0.settled(
        a.1,
        b.1,
        b0,
        b.2.view(),
        pool,
        q->Ok_0,
    )
}

/// Force closing position `id` for `pool` takes `a` to `b`: nothing changes where the
/// penalty, the settlement or its payment fails; otherwise the position is closed for its
/// owner and its penalty, up to the liquidity left, goes from its pool to the treasury, or
/// stays in the pool where that transfer fails.
pub open spec fn force_close_step(a: ProtocolState, b: ProtocolState, prices: Prices, pool: LiquidityPoolId, id: PositionId) -> bool {
    let q = a.0.spec_penalty(a.1, prices, pool, id);
    let p = a.0.position(id)->0;
    let b0 = a.2.view();
    let base0 = a.1.spec_base();
    let c = a.0.spec_settlement(a.1, prices, p.owner, id, None);
    let done = q is Ok && c is Ok && a.0.settlement_ok(a.1, b0, p.pool, c->Ok_0);
    &&& b.0.wf() && b.1.wf() && b.2.wf()
    &&& b.1.same_except_base(&a.1)
    &&& a.2.same_reserved(&b.2)
    &&& !done ==> b == a
    &&& done ==> {
        let s = c->Ok_0;
        let mid_liq = MarginProtocol::settled_liquidity(a.1, p.pool, s);
        let mid_b = a.0.settled_balances(a.1, b0, s);
        let owed = spec_u128_from_fixed(Fixed { inner: q->Ok_0 });
        let realized = if mid_liq <= owed {
            mid_liq
        } else {
            owed as int
        };
        let ok = base0.pool(p.pool) is Some && transfer_ok(
            mid_b,
            base0.spec_currency(),
            base0.spec_account(),
            a.0.spec_treasury(),
            realized as u128,
        );
        &&& a.0.closed(&b.0, p.owner, id, MarginProtocol::settlement_delta(s))
        &&& base0.same_except_balance(&b.1.spec_base(), p.pool)
        &&& ok ==> b.2.view() == after_transfer(
            mid_b,
            base0.spec_currency(),
            base0.spec_account(),
            a.0.spec_treasury(),
            realized as u128,
        ) && b.1.spec_base().spec_liquidity(p.pool) == mid_liq - realized
        &&& !ok ==> b.2.view() == mid_b && b.1.spec_base().spec_liquidity(p.pool) == mid_liq
    }
}

/// The risk of `who` in `pool` in state `st`.
pub open spec fn trader_risk_in(st: ProtocolState, prices: Prices, who: AccountId, pool: LiquidityPoolId) -> Result<Risk, MarginError> {
    st.0.spec_check_trader(st.1, prices, who, pool, Action::Nothing)
}

/// `order` is `cands` sorted by amount, entries with equal amounts in their order in `cands`.
pub open spec fn stop_out_order(order: Seq<(PositionId, Fixed)>, cands: Seq<(PositionId, Fixed)>) -> bool {
    &&& order.len() == cands.len()
    &&& sorted_by_amount(order)
    &&& order.to_multiset() == cands.to_multiset()
    &&& keeps_order_of_equal(cands, order)
}

/// Step `j` of a stop out run: the trader is at stop out risk in `t[j]`, and `t[j + 1]` is
/// `t[j]` with position `order[j]` closed at the market price.
pub open spec fn stop_out_step(
    t: Seq<ProtocolState>,
    order: Seq<(PositionId, Fixed)>,
    prices: Prices,
    who: AccountId,
    pool: LiquidityPoolId,
    j: int,
) -> bool {
    &&& trader_risk_in(t[j], prices, who, pool) == Ok::<Risk, MarginError>(Risk::StopOut)
    &&& market_close_step(t[j], t[j + 1], prices, who, pool, order[j].0)
}

/// `t` is a stop out run of `who` in `pool` over `order` from `t[0]`: the positions of `order`
/// are closed in turn while the trader stays at stop out risk; the run ends at the first state
/// whose risk check fails or is not stop out, or when every position was tried.
pub open spec fn stop_out_run(
    t: Seq<ProtocolState>,
    order: Seq<(PositionId, Fixed)>,
    prices: Prices,
    who: AccountId,
    pool: LiquidityPoolId,
) -> bool {
    &&& 1 <= t.len() <= order.len() + 1
    &&& forall|j: int| 0 <= j < t.len() - 1 ==> #[trigger] stop_out_step(t, order, prices, who, pool, j)
    &&& trader_risk_in(t.last(), prices, who, pool) == Ok::<Risk, MarginError>(Risk::StopOut) ==> t.len()
        == order.len() + 1
}

/// Step `j` of a force close run: `t[j + 1]` is `t[j]` with position `ids[j]` force closed.
pub open spec fn force_close_at(t: Seq<ProtocolState>, ids: Seq<PositionId>, prices: Prices, pool: LiquidityPoolId, j: int) -> bool {
    force_close_step(t[j], t[j + 1], prices, pool, ids[j])
}

/// `t` is a force close run of `pool` over `ids` from `t[0]`: every position of `ids` is
/// force closed in turn.
pub open spec fn force_close_run(t: Seq<ProtocolState>, ids: Seq<PositionId>, prices: Prices, pool: LiquidityPoolId) -> bool {
    &&& t.len() == ids.len() + 1
    &&& forall|j: int| 0 <= j < ids.len() ==> #[trigger] force_close_at(t, ids, prices, pool, j)
}

impl MarginProtocol {
    /// The same positions, except that some may have been closed; the others are unchanged.
    pub open spec fn only_closed(&self, other: &MarginProtocol) -> bool {
        &&& forall|id: PositionId| #[trigger] other.position(id) is Some ==> other.position(id) == self.position(id)
        &&& forall|pair: TradingPair| #[trigger] other.thresholds(pair) == self.thresholds(pair)
        &&& other.same_config(self)
    }

    /// At most position `id` was closed; nothing else about positions, thresholds, flags and
    /// settings changed.
    pub open spec fn closes_at_most(&self, other: &MarginProtocol, id: PositionId) -> bool {
        &&& forall|j: PositionId| #[trigger] other.position(j) is Some ==> other.position(j) == self.position(j)
        &&& forall|j: PositionId| j != id ==> #[trigger] other.position(j) == self.position(j)
        &&& forall|q: TradingPair| #[trigger] other.thresholds(q) == self.thresholds(q)
        &&& forall|p: LiquidityPoolId| #[trigger] other.pool_margin_called(p) == self.pool_margin_called(p)
        &&& forall|w: AccountId, p: LiquidityPoolId| #[trigger] other.trader_margin_called(w, p)
            == self.trader_margin_called(w, p)
        &&& other.same_config(self)
    }

    /// Force closes position `id`, ignoring whether that succeeds.
    fn force_close_one(
        &mut self,
        pools: &mut MarginLiquidityPools,
        prices: &Prices,
        ledger: &mut Ledger,
        pool: LiquidityPoolId,
        id: PositionId,
    )
        requires
            old(self).wf(),
            old(pools).wf(),
            prices.wf(),
            old(ledger).wf(),
        ensures
            final(self).wf(),
            final(pools).wf(),
            final(ledger).wf(),
            old(ledger).same_reserved(&*final(ledger)),
            final(pools).same_except_base(&*old(pools)),
            old(self).closes_at_most(&*final(self), id),
            force_close_step((*old(self), *old(pools), *old(ledger)), (*final(self), *final(pools), *final(ledger)), *prices, pool, id),
    {
        let _ = self.liquidity_pool_close_position(pools, prices, ledger, pool, id);
    }

    /// Ids of the positions in `pool`, in the order they were opened.
    fn positions_in_pool(&self, pool: LiquidityPoolId) -> (ids: Vec<PositionId>)
        requires
            self.wf(),
        ensures
            ids@ == pool_ids_of(self.spec_positions(), pool),
            forall|m: int| 0 <= m < ids@.len() ==> #[trigger] self.position(ids@[m]) is Some && self.position(
                ids@[m],
            )->0.pool == pool,
    {
        let mut ids: Vec<PositionId> = Vec::new();
        let n = self.positions.len();
        let mut i: usize = 0;
        proof {
            self.positions.lemma_wf();
        }
        while i < n
            invariant
                self.wf(),
                n == self.spec_positions().len(),
                i <= n,
                ids@ == pool_ids_of(self.spec_positions().take(i as int), pool),
                forall|j: int|
                    0 <= j < self.spec_positions().len() ==> #[trigger] self.position(self.spec_positions()[j].0)
                        == Some(self.spec_positions()[j].1),
                forall|m: int| 0 <= m < ids@.len() ==> #[trigger] self.position(ids@[m]) is Some && self.position(
                    ids@[m],
                )->0.pool == pool,
            decreases n - i,
        {
            proof {
                assert(self.spec_positions().take(i + 1).drop_last() =~= self.spec_positions().take(i as int));
            }
            let id = self.positions.key_at(i);
            let p = *self.positions.value_at(i);
            if p.pool == pool {
                ids.push(id);
                proof {
                    assert(self.position(self.spec_positions()[i as int].0) == Some(self.spec_positions()[i as int].1));
                    assert forall|m: int| 0 <= m < ids@.len() implies #[trigger] self.position(ids@[m]) is Some && self.position(
                        ids@[m],
                    )->0.pool == pool by {
                        if m < ids@.len() - 1 {
                            assert(ids@[m] == ids@.drop_last()[m]);
                        }
                    }
                }
            }
            i = i + 1;
        }
        proof {
            assert(self.spec_positions().take(n as int) =~= self.spec_positions());
        }
        ids
    }

    /// Force closes every position of `pool` at stop out; then removes its margin-called mark if
    /// it is safe. Fails, changing nothing, unless `pool` is at stop out risk. A position whose
    /// closing fails stays open.
    pub fn liquidity_pool_force_close(
        &mut self,
        pools: &mut MarginLiquidityPools,
        prices: &Prices,
        ledger: &mut Ledger,
        pool: LiquidityPoolId,
    ) -> (r: Result<(), DispatchError>)
        requires
            old(self).wf(),
            old(pools).wf(),
            prices.wf(),
            old(ledger).wf(),
        ensures
            final(self).wf(),
            final(pools).wf(),
            final(ledger).wf(),
            old(ledger).same_reserved(&*final(ledger)),
            final(pools).same_except_base(&*old(pools)),
            old(self).spec_check_pool(*old(pools), *prices, pool, Action::Nothing) != Ok::<Risk, MarginError>(
                Risk::StopOut,
            ) ==> r == Err::<(), DispatchError>(DispatchError::MarginProtocol(MarginError::NotReachedRiskThreshold))
                && *final(self) == *old(self) && *final(ledger) == *old(ledger) && *final(pools) == *old(pools),
            old(self).spec_check_pool(*old(pools), *prices, pool, Action::Nothing) == Ok::<Risk, MarginError>(
                Risk::StopOut,
            ) ==> {
                &&& r is Ok
                &&& old(self).only_closed(&*final(self))
                &&& forall|id: PositionId|
                    #[trigger] old(self).position(id) is Some && old(self).position(id)->0.pool != pool ==> final(self).position(id) == old(self).position(id)
                &&& final(self).pool_margin_called(pool) == (old(self).pool_margin_called(pool) && final(self).spec_ensure_pool_safe(*final(pools), *prices, pool, Action::Nothing) is Err)
                &&& exists|t: Seq<ProtocolState>|
                    #![trigger force_close_run(t, pool_ids_of(old(self).spec_positions(), pool), *prices, pool)]
                    {
                        &&& t[0] == (*old(self), *old(pools), *old(ledger))
                        &&& force_close_run(t, pool_ids_of(old(self).spec_positions(), pool), *prices, pool)
                        &&& t.last().0.same_except_pool_flag(&*final(self), pool)
                        &&& *final(pools) == t.last().1
                        &&& *final(ledger) == t.last().2
                    }
            },
    {
        match self.check_pool(pools, prices, pool, Action::Nothing) {
            Ok(Risk::StopOut) => {},
            _ => {
                return Err(merr(MarginError::NotReachedRiskThreshold));
            },
        }
        let ids = self.positions_in_pool(pool);
        let ghost s0 = *self;
        let ghost p0 = *pools;
        let ghost mut t: Seq<ProtocolState> = seq![(*self, *pools, *ledger)];
        let mut i: usize = 0;
        while i < ids.len()
            invariant
                t.len() == i + 1,
                t[0] == (s0, p0, *old(ledger)),
                t.last() == (*self, *pools, *ledger),
                forall|j: int| 0 <= j < i ==> #[trigger] force_close_at(t, ids@, *prices, pool, j),
                old(ledger).same_reserved(&*ledger),
                self.wf(),
                pools.wf(),
                ledger.wf(),
                prices.wf(),
                pools.same_except_base(&p0),
                i <= ids@.len(),
                s0.only_closed(&*self),
                forall|id: PositionId|
                    #[trigger] s0.position(id) is Some && s0.position(id)->0.pool != pool ==> self.position(id)
                        == s0.position(id),
                forall|m: int| 0 <= m < ids@.len() ==> #[trigger] s0.position(ids@[m]) is Some && s0.position(
                    ids@[m],
                )->0.pool == pool,
                forall|p: LiquidityPoolId| #[trigger] self.pool_margin_called(p) == s0.pool_margin_called(p),
            decreases ids@.len() - i,
        {
            let id = ids[i];
            let ghost before = *self;
            let ghost t_before = t;
            self.force_close_one(pools, prices, ledger, pool, id);
            proof {
                t = t.push((*self, *pools, *ledger));
                assert forall|j: int| 0 <= j < i + 1 implies #[trigger] force_close_at(t, ids@, *prices, pool, j) by {
                    if j < i {
                        assert(force_close_at(t_before, ids@, *prices, pool, j));
                        assert(t[j] == t_before[j]);
                        assert(t[j + 1] == t_before[j + 1]);
                    }
                }
                assert(s0.position(ids@[i as int]) is Some);
                assert forall|j: PositionId| #[trigger] self.position(j) is Some implies self.position(j) == s0.position(j) by {
                    assert(self.position(j) == before.position(j));
                }
                assert forall|j: PositionId|
                    #[trigger] s0.position(j) is Some && s0.position(j)->0.pool != pool implies self.position(j) == s0.position(j) by {
                    assert(before.position(j) == s0.position(j));
                    if j == id {
                        assert(s0.position(ids@[i as int])->0.pool == pool);
                    }
                }
                assert forall|q: TradingPair| #[trigger] self.thresholds(q) == s0.thresholds(q) by {
                    assert(self.thresholds(q) == before.thresholds(q));
                }
                assert forall|p: LiquidityPoolId| #[trigger] self.pool_margin_called(p) == s0.pool_margin_called(p) by {
                    assert(self.pool_margin_called(p) == before.pool_margin_called(p));
                }
            }
            i = i + 1;
        }
        let ghost s1 = *self;
        if self.ensure_pool_safe(pools, prices, pool, Action::Nothing).is_ok() && self.is_pool_margin_called(pool) {
            self.margin_called_pools.remove(&pool);
            proof {
                self.lemma_flags(&s1);
                assert(self.threshold_of() =~= s1.threshold_of());
                assert(self.spec_ensure_pool_safe(*pools, *prices, pool, Action::Nothing) == s1.spec_ensure_pool_safe(
                    *pools,
                    *prices,
                    pool,
                    Action::Nothing,
                ));
                assert forall|j: PositionId| #[trigger] self.position(j) is Some implies self.position(j) == s0.position(j) by {
                    assert(self.position(j) == s1.position(j));
                }
                assert forall|j: PositionId|
                    #[trigger] s0.position(j) is Some && s0.position(j)->0.pool != pool implies self.position(j) == s0.position(j) by {
                    assert(self.position(j) == s1.position(j));
                }
                assert forall|q: TradingPair| #[trigger] self.thresholds(q) == s0.thresholds(q) by {
                    assert(self.thresholds(q) == s1.thresholds(q));
                }
            }
        }
        proof {
            assert(force_close_run(t, pool_ids_of(s0.spec_positions(), pool), *prices, pool));
            assert(s1.same_except_pool_flag(&*self, pool));
        }
        Ok(())
    }
}

impl MarginProtocol {
    /// Two states agree on everything.
    pub open spec fn same_state(&self, other: &MarginProtocol) -> bool {
        &&& other.spec_positions() == self.spec_positions()
        &&& forall|id: PositionId| #[trigger] other.position(id) == self.position(id)
        &&& other.snapshot_entries() == self.snapshot_entries()
        &&& forall|pool: LiquidityPoolId, pair: TradingPair| #[trigger] other.snapshot(pool, pair) == self.snapshot(pool, pair)
        &&& other.snapshot_keys() == self.snapshot_keys()
        &&& forall|w: AccountId, pool: LiquidityPoolId| #[trigger] other.balance(w, pool) == self.balance(w, pool)
        &&& forall|w: AccountId, pool: LiquidityPoolId| #[trigger] other.trader_margin_called(w, pool)
            == self.trader_margin_called(w, pool)
        &&& forall|pool: LiquidityPoolId| #[trigger] other.pool_margin_called(pool) == self.pool_margin_called(pool)
        &&& forall|pair: TradingPair| #[trigger] other.thresholds(pair) == self.thresholds(pair)
        &&& other.spec_next_position_id() == self.spec_next_position_id()
        &&& other.same_config(self)
    }

    /// A copy of the state.
    fn duplicate(&self) -> (r: MarginProtocol)
        requires
            self.wf(),
        ensures
            r.wf(),
            self.same_state(&r),
    {
        let r = MarginProtocol {
            next_position_id: self.next_position_id,
            positions: self.positions.snapshot(),
            snapshots: self.snapshots.snapshot(),
            balances: self.balances.snapshot(),
            margin_called_traders: self.margin_called_traders.snapshot(),
            margin_called_pools: self.margin_called_pools.snapshot(),
            risk_thresholds: self.risk_thresholds.snapshot(),
            account: self.account,
            treasury: self.treasury,
            trader_max_open_positions: self.trader_max_open_positions,
            pool_max_open_positions: self.pool_max_open_positions,
            update_origin: self.update_origin,
            liquidity_currency: self.liquidity_currency,
        };
        proof {
            assert forall|k: PoolPair| #[trigger] r.snapshots.spec_get(k) == self.snapshots.spec_get(k) by {}
            assert forall|k: PoolPair| #[trigger] count_in(r.positions.entries(), k.pool, k.pair) == count_in(
                self.positions.entries(),
                k.pool,
                k.pair,
            ) by {}
            assert forall|k: PoolPair| #[trigger] r.snapshots.spec_get(k) is Some implies r.snapshots.spec_get(k)->0.positions_count
                == count_in(r.positions.entries(), k.pool, k.pair) by {
                assert(self.snapshots.spec_get(k) is Some);
            }
            assert forall|k: PoolPair| count_in(r.positions.entries(), k.pool, k.pair) > 0 implies #[trigger] r.snapshots.spec_get(k) is Some by {
                assert(count_in(self.positions.entries(), k.pool, k.pair) > 0);
                assert(self.snapshots.spec_get(k) is Some);
            }
        }
        r
    }

    /// Closes position `id` of `who` at the market price, ignoring whether that succeeds.
    fn close_for_trader(
        &mut self,
        pools: &mut MarginLiquidityPools,
        prices: &Prices,
        ledger: &mut Ledger,
        who: AccountId,
        pool: LiquidityPoolId,
        id: PositionId,
    )
        requires
            old(self).wf(),
            old(pools).wf(),
            prices.wf(),
            old(ledger).wf(),
            old(self).position(id) is Some,
            old(self).position(id)->0.pool == pool,
        ensures
            final(self).wf(),
            final(pools).wf(),
            final(ledger).wf(),
            old(ledger).same_reserved(&*final(ledger)),
            final(pools).same_except_base(&*old(pools)),
            old(pools).spec_base().same_except_balance(&final(pools).spec_base(), pool),
            old(self).closes_at_most(&*final(self), id),
            market_close_step(
                (*old(self), *old(pools), *old(ledger)),
                (*final(self), *final(pools), *final(ledger)),
                *prices,
                who,
                pool,
                id,
            ),
    {
        let _ = self.do_close_position(pools, prices, ledger, who, id, None);
    }

    /// Positions of `who` in `pool` whose unrealized profit and loss with swap rates can be
    /// computed, with that amount.
    fn stop_out_candidates(&self, pools: &MarginLiquidityPools, prices: &Prices, who: AccountId, pool: LiquidityPoolId) -> (r:
        Vec<(PositionId, Fixed)>)
        requires
            self.wf(),
            pools.wf(),
            prices.wf(),
        ensures
            r@ == candidates_of(self.spec_positions(), *pools, *prices, who, pool),
            forall|m: int| 0 <= m < r@.len() ==> #[trigger] self.position(r@[m].0) is Some && self.position(
                r@[m].0,
            )->0.owner == who && self.position(r@[m].0)->0.pool == pool,
    {
        let mut r: Vec<(PositionId, Fixed)> = Vec::new();
        let n = self.positions.len();
        let mut i: usize = 0;
        proof {
            self.positions.lemma_wf();
        }
        while i < n
            invariant
                self.wf(),
                pools.wf(),
                prices.wf(),
                n == self.spec_positions().len(),
                i <= n,
                r@ == candidates_of(self.spec_positions().take(i as int), *pools, *prices, who, pool),
                forall|j: int|
                    0 <= j < self.spec_positions().len() ==> #[trigger] self.position(self.spec_positions()[j].0)
                        == Some(self.spec_positions()[j].1),
                forall|m: int| 0 <= m < r@.len() ==> #[trigger] self.position(r@[m].0) is Some && self.position(
                    r@[m].0,
                )->0.owner == who && self.position(r@[m].0)->0.pool == pool,
            decreases n - i,
        {
            proof {
                assert(self.spec_positions().take(i + 1).drop_last() =~= self.spec_positions().take(i as int));
            }
            let id = self.positions.key_at(i);
            let p = *self.positions.value_at(i);
            if p.owner == who && p.pool == pool {
                if let Ok((pl, _)) = unrealized_pl_and_market_price_of_position(pools, prices, &p, None) {
                    if let Ok(acc) = accumulated_swap_rate_of_position(pools, prices, &p) {
                        if let Some(u) = pl.checked_add(&acc) {
                            r.push((id, u));
                            proof {
                                assert(self.position(self.spec_positions()[i as int].0) == Some(self.spec_positions()[i as int].1));
                                assert forall|m: int| 0 <= m < r@.len() implies #[trigger] self.position(r@[m].0) is Some
                                    && self.position(r@[m].0)->0.owner == who && self.position(r@[m].0)->0.pool == pool by {
                                    if m < r@.len() - 1 {
                                        assert(r@[m] == r@.drop_last()[m]);
                                    }
                                }
                            }
                        }
                    }
                }
            }
            i = i + 1;
        }
        proof {
            assert(self.spec_positions().take(n as int) =~= self.spec_positions());
        }
        r
    }

    /// Stops out `who` in `pool`: closes its positions at the market price, biggest loss first,
    /// until it is no longer at stop out risk or every position whose loss can be computed was
    /// tried; then removes its margin-called mark if it is safe. Fails, changing nothing, unless
    /// it is at stop out risk, or where a risk check between closes fails.
    pub fn trader_stop_out(
        &mut self,
        pools: &mut MarginLiquidityPools,
        prices: &Prices,
        ledger: &mut Ledger,
        who: AccountId,
        pool: LiquidityPoolId,
    ) -> (r: Result<(), DispatchError>)
        requires
            old(self).wf(),
            old(pools).wf(),
            prices.wf(),
            old(ledger).wf(),
        ensures
            final(self).wf(),
            final(pools).wf(),
            final(ledger).wf(),
            old(ledger).same_reserved(&*final(ledger)),
            final(pools).same_except_base(&*old(pools)),
            ({
                let c = old(self).spec_check_trader(*old(pools), *prices, who, pool, Action::Nothing);
                &&& c is Err ==> r == Err::<(), DispatchError>(DispatchError::MarginProtocol(c->Err_0))
                    && *final(self) == *old(self) && *final(ledger) == *old(ledger) && *final(pools) == *old(pools)
                &&& c is Ok && c->Ok_0 != Risk::StopOut ==> r == Err::<(), DispatchError>(
                    DispatchError::MarginProtocol(MarginError::NotReachedRiskThreshold),
                ) && *final(self) == *old(self) && *final(ledger) == *old(ledger) && *final(pools) == *old(pools)
                &&& c == Ok::<Risk, MarginError>(Risk::StopOut) && r is Err ==> old(self).same_state(&*final(self))
                    && final(ledger).view() == old(ledger).view() && final(pools).spec_base().same_state(
                    &old(pools).spec_base(),
                )
                &&& c == Ok::<Risk, MarginError>(Risk::StopOut) && r is Ok ==> {
                    &&& old(self).only_closed(&*final(self))
                    &&& forall|id: PositionId|
                        #[trigger] old(self).position(id) is Some && !(old(self).position(id)->0.owner == who && old(
                            self,
                        ).position(id)->0.pool == pool) ==> final(self).position(id) == old(self).position(id)
                    &&& forall|w: AccountId, p: LiquidityPoolId|
                        !(w == who && p == pool) ==> #[trigger] final(self).trader_margin_called(w, p) == old(
                            self,
                        ).trader_margin_called(w, p)
                    &&& final(self).trader_margin_called(who, pool) == (old(self).trader_margin_called(who, pool)
                        && final(self).spec_check_trader(*final(pools), *prices, who, pool, Action::Nothing) != Ok::<
                        Risk,
                        MarginError,
                    >(Risk::Safe))
                    &&& old(pools).spec_base().same_except_balance(&final(pools).spec_base(), pool)
                }
                &&& c == Ok::<Risk, MarginError>(Risk::StopOut) ==> exists|
                    order: Seq<(PositionId, Fixed)>,
                    t: Seq<ProtocolState>,
                | #![trigger stop_out_run(t, order, *prices, who, pool)]
                {
                    let last = trader_risk_in(t.last(), *prices, who, pool);
                    &&& stop_out_order(order, candidates_of(old(self).spec_positions(), *old(pools), *prices, who, pool))
                    &&& t[0] == (*old(self), *old(pools), *old(ledger))
                    &&& stop_out_run(t, order, *prices, who, pool)
                    &&& last is Err ==> r == Err::<(), DispatchError>(DispatchError::MarginProtocol(last->Err_0))
                    &&& last is Ok ==> r is Ok && t.last().0.same_except_trader_flag(&*final(self), who, pool)
                        && *final(pools) == t.last().1 && *final(ledger) == t.last().2
                }
            }),
    {
        match self.check_trader(pools, prices, who, pool, Action::Nothing) {
            Ok(Risk::StopOut) => {},
            Ok(_) => {
                return Err(merr(MarginError::NotReachedRiskThreshold));
            },
            Err(e) => {
                return Err(merr(e));
            },
        }
        let candidates = self.stop_out_candidates(pools, prices, who, pool);
        let sorted = sort_by_amount(&candidates);
        let saved = self.duplicate();
        proof {
            pools.lemma_base_wf();
        }
        let saved_pools = pools.base().save_pools();
        let saved_ledger = ledger.snapshot();
        let ghost s0 = *self;
        let ghost p0 = *pools;
        let ghost base0 = pools.spec_base();
        let ghost mut tr: Seq<ProtocolState> = seq![(*self, *pools, *ledger)];
        proof {
            assert(old(ledger).same_reserved(&saved_ledger));
        }
        let mut i: usize = 0;
        let mut done = false;
        while i < sorted.len() && !done
            invariant
                candidates@ == candidates_of(s0.spec_positions(), p0, *prices, who, pool),
                stop_out_order(sorted@, candidates@),
                tr.len() == i + 1 + (if done { 1int } else { 0int }),
                done ==> i < sorted@.len(),
                tr[0] == (s0, p0, *old(ledger)),
                tr.last() == (*self, *pools, *ledger),
                forall|j: int| 0 <= j < tr.len() - 1 ==> #[trigger] stop_out_step(tr, sorted@, *prices, who, pool, j),
                !done ==> trader_risk_in(tr.last(), *prices, who, pool) == Ok::<Risk, MarginError>(Risk::StopOut),
                done ==> trader_risk_in(tr.last(), *prices, who, pool) is Ok && trader_risk_in(
                    tr.last(),
                    *prices,
                    who,
                    pool,
                )->Ok_0 != Risk::StopOut,
                old(ledger).same_reserved(&*ledger),
                old(ledger).same_reserved(&saved_ledger),
                self.wf(),
                pools.wf(),
                ledger.wf(),
                prices.wf(),
                saved.wf(),
                s0.same_state(&saved),
                saved_pools.wf(),
                saved_pools.entries() == base0.pools.entries(),
                saved_ledger.wf(),
                saved_ledger.view() == old(ledger).view(),
                forall|x: (PositionId, Fixed)| #[trigger] sorted@.contains(x) <==> candidates@.contains(x),
                forall|m: int| 0 <= m < candidates@.len() ==> #[trigger] s0.position(candidates@[m].0) is Some
                    && s0.position(candidates@[m].0)->0.owner == who && s0.position(candidates@[m].0)->0.pool == pool,
                base0 == p0.spec_base(),
                s0 == *old(self),
                p0 == *old(pools),
                s0.spec_check_trader(p0, *prices, who, pool, Action::Nothing) == Ok::<Risk, MarginError>(Risk::StopOut),
                pools.same_except_base(&p0),
                base0.same_except_balance(&pools.spec_base(), pool),
                i <= sorted@.len(),
                s0.only_closed(&*self),
                forall|id: PositionId|
                    #[trigger] s0.position(id) is Some && !(s0.position(id)->0.owner == who && s0.position(id)->0.pool
                        == pool) ==> self.position(id) == s0.position(id),
                forall|w: AccountId, p: LiquidityPoolId| #[trigger] self.trader_margin_called(w, p)
                    == s0.trader_margin_called(w, p),
            decreases sorted@.len() - i + (if done { 0int } else { 1int }),
        {
            let (id, _) = sorted[i];
            let ghost before = *self;
            let ghost tr_before = tr;
            proof {
                assert(sorted@.contains(sorted@[i as int]));
                assert(candidates@.contains(sorted@[i as int]));
                let m = choose|m: int| 0 <= m < candidates@.len() && candidates@[m] == sorted@[i as int];
                assert(s0.position(candidates@[m].0) is Some);
            }
            if self.positions(id).is_some() {
                proof {
                    assert(self.position(id) == s0.position(id));
                }
                let ghost base_before = pools.spec_base();
                self.close_for_trader(pools, prices, ledger, who, pool, id);
                proof {
                    BaseLiquidityPools::lemma_same_except_balance_trans(base0, base_before, pools.spec_base(), pool);
                    assert forall|j: PositionId| #[trigger] self.position(j) is Some implies self.position(j) == s0.position(j) by {
                        assert(self.position(j) == before.position(j));
                    }
                    assert forall|j: PositionId|
                        #[trigger] s0.position(j) is Some && !(s0.position(j)->0.owner == who && s0.position(j)->0.pool == pool)
                        implies self.position(j) == s0.position(j) by {
                        assert(before.position(j) == s0.position(j));
                    }
                    assert forall|q: TradingPair| #[trigger] self.thresholds(q) == s0.thresholds(q) by {
                        assert(self.thresholds(q) == before.thresholds(q));
                    }
                    assert forall|w: AccountId, p: LiquidityPoolId| #[trigger] self.trader_margin_called(w, p)
                        == s0.trader_margin_called(w, p) by {
                        assert(self.trader_margin_called(w, p) == before.trader_margin_called(w, p));
                    }
                }
            } else {
                proof {
                    assert(tr.last().1.same_except_base(&tr.last().1));
                    assert(tr.last().2.same_reserved(&tr.last().2));
                    assert(market_close_step(tr.last(), tr.last(), *prices, who, pool, id));
                }
            }
            proof {
                tr = tr.push((*self, *pools, *ledger));
                assert forall|j: int| 0 <= j < tr.len() - 1 implies #[trigger] stop_out_step(tr, sorted@, *prices, who, pool, j) by {
                    if j < tr.len() - 2 {
                        assert(stop_out_step(tr_before, sorted@, *prices, who, pool, j));
                        assert(tr[j] == tr_before[j]);
                        assert(tr[j + 1] == tr_before[j + 1]);
                    } else {
                        assert(tr[j] == tr_before.last());
                    }
                }
            }
            match self.check_trader(pools, prices, who, pool, Action::Nothing) {
                Err(e) => {
                    proof {
                        assert(stop_out_run(tr, sorted@, *prices, who, pool));
                    }
                    *self = saved;
                    proof {
                        pools.lemma_base_wf();
                    }
                    pools.base_mut().restore_pools(saved_pools, Ghost(base0));
                    *ledger = saved_ledger;
                    return Err(merr(e));
                },
                Ok(Risk::StopOut) => {},
                Ok(_) => {
                    done = true;
                },
            }
            if !done {
                i = i + 1;
            }
        }
        let ghost s1 = *self;
        match self.check_trader(pools, prices, who, pool, Action::Nothing) {
            Ok(Risk::Safe) => {
                if self.is_trader_margin_called(who, pool) {
                    self.margin_called_traders.remove(&TraderPool { who, pool });
                    proof {
                        self.lemma_flags(&s1);
                        assert(self.threshold_of() =~= s1.threshold_of());
                        assert(self.spec_check_trader(*pools, *prices, who, pool, Action::Nothing) == s1.spec_check_trader(
                            *pools,
                            *prices,
                            who,
                            pool,
                            Action::Nothing,
                        ));
                        assert forall|j: PositionId| #[trigger] self.position(j) is Some implies self.position(j) == s0.position(j) by {
                            assert(self.position(j) == s1.position(j));
                        }
                        assert forall|j: PositionId|
                            #[trigger] s0.position(j) is Some && !(s0.position(j)->0.owner == who && s0.position(j)->0.pool == pool)
                            implies self.position(j) == s0.position(j) by {
                            assert(self.position(j) == s1.position(j));
                        }
                        assert forall|q: TradingPair| #[trigger] self.thresholds(q) == s0.thresholds(q) by {
                            assert(self.thresholds(q) == s1.thresholds(q));
                        }
                        assert forall|w: AccountId, p: LiquidityPoolId|
                            !(w == who && p == pool) implies #[trigger] self.trader_margin_called(w, p) == s0.trader_margin_called(w, p) by {
                            assert(TraderPool { who: w, pool: p } != TraderPool { who, pool });
                            assert(s1.trader_margin_called(w, p) == s0.trader_margin_called(w, p));
                        }
                    }
                }
            },
            _ => {},
        }
        proof {
            assert(stop_out_run(tr, sorted@, *prices, who, pool));
            assert(s1.same_except_trader_flag(&*self, who, pool));
        }
        Ok(())
    }
}

impl MarginProtocol {
    /// `(trader, pool)` of every open position, each once, in ascending order.
    pub fn get_traders(&self) -> (r: Vec<(AccountId, LiquidityPoolId)>)
        requires
            self.wf(),
        ensures
            forall|i: int, j: int| 0 <= i < j < r@.len() ==> trader_pool_lt(#[trigger] r@[i], #[trigger] r@[j]),
            forall|x: (AccountId, LiquidityPoolId)| #[trigger] r@.contains(x) <==> exists|m: int|
                0 <= m < self.spec_positions().len() && (#[trigger] self.spec_positions()[m]).1.owner == x.0
                    && self.spec_positions()[m].1.pool == x.1,
    {
        let mut r: Vec<(AccountId, LiquidityPoolId)> = Vec::new();
        let n = self.positions.len();
        let mut i: usize = 0;
        while i < n
            invariant
                n == self.spec_positions().len(),
                i <= n,
                forall|a: int, b: int| 0 <= a < b < r@.len() ==> trader_pool_lt(#[trigger] r@[a], #[trigger] r@[b]),
                forall|x: (AccountId, LiquidityPoolId)| #[trigger] r@.contains(x) <==> exists|m: int|
                    0 <= m < i && (#[trigger] self.spec_positions()[m]).1.owner == x.0 && self.spec_positions()[m].1.pool
                        == x.1,
            decreases n - i,
        {
            let p = self.positions.value_at(i);
            let x = (p.owner, p.pool);
            let mut k: usize = 0;
            while k < r.len() && (r[k].0 < x.0 || (r[k].0 == x.0 && r[k].1 < x.1))
                invariant
                    k <= r@.len(),
                    forall|j: int| 0 <= j < k ==> trader_pool_lt(#[trigger] r@[j], x),
                decreases r@.len() - k,
            {
                k = k + 1;
            }
            let ghost old_r = r@;
            if k < r.len() && r[k].0 == x.0 && r[k].1 == x.1 {
                proof {
                    assert forall|y: (AccountId, LiquidityPoolId)| #[trigger] r@.contains(y) <==> exists|m: int|
                        0 <= m < i + 1 && (#[trigger] self.spec_positions()[m]).1.owner == y.0
                            && self.spec_positions()[m].1.pool == y.1 by {
                        if y == x {
                            assert(r@[k as int] == x);
                            assert(self.spec_positions()[i as int].1.owner == y.0);
                        }
                        if exists|m: int|
                            0 <= m < i + 1 && (#[trigger] self.spec_positions()[m]).1.owner == y.0
                                && self.spec_positions()[m].1.pool == y.1 {
                            let m = choose|m: int|
                                0 <= m < i + 1 && (#[trigger] self.spec_positions()[m]).1.owner == y.0
                                    && self.spec_positions()[m].1.pool == y.1;
                            if m == i {
                                assert(y == x);
                                assert(r@[k as int] == x);
                            }
                        }
                    }
                }
            } else {
                r.insert(k, x);
                proof {
                    let nr = r@;
                    assert forall|j: int| 0 <= j < nr.len() implies #[trigger] nr[j] == if j < k {
                        old_r[j]
                    } else if j == k {
                        x
                    } else {
                        old_r[j - 1]
                    } by {}
                    if k < old_r.len() {
                        assert(!trader_pool_lt(old_r[k as int], x));
                        assert(old_r[k as int] != x);
                        assert(trader_pool_lt(x, old_r[k as int]));
                    }
                    assert forall|a: int, b: int| 0 <= a < b < nr.len() implies trader_pool_lt(#[trigger] nr[a], #[trigger] nr[b]) by {
                        if a < k && b > k {
                            assert(trader_pool_lt(old_r[a], old_r[b - 1]));
                        }
                        if a == k && b > k + 1 {
                            assert(trader_pool_lt(old_r[k as int], old_r[b - 1]));
                        }
                    }
                    assert forall|y: (AccountId, LiquidityPoolId)| #[trigger] nr.contains(y) <==> exists|m: int|
                        0 <= m < i + 1 && (#[trigger] self.spec_positions()[m]).1.owner == y.0
                            && self.spec_positions()[m].1.pool == y.1 by {
                        if nr.contains(y) {
                            let j = choose|j: int| 0 <= j < nr.len() && nr[j] == y;
                            if j == k {
                                assert(self.spec_positions()[i as int].1.owner == y.0);
                            } else if j < k {
                                assert(old_r.contains(y));
                            } else {
                                assert(old_r[j - 1] == y);
                                assert(old_r.contains(y));
                            }
                        }
                        if exists|m: int|
                            0 <= m < i + 1 && (#[trigger] self.spec_positions()[m]).1.owner == y.0
                                && self.spec_positions()[m].1.pool == y.1 {
                            let m = choose|m: int|
                                0 <= m < i + 1 && (#[trigger] self.spec_positions()[m]).1.owner == y.0
                                    && self.spec_positions()[m].1.pool == y.1;
                            if m == i {
                                assert(y == x);
                                assert(nr[k as int] == x);
                            } else {
                                assert(old_r.contains(y));
                                let j = choose|j: int| 0 <= j < old_r.len() && old_r[j] == y;
                                if j < k {
                                    assert(nr[j] == y);
                                } else {
                                    assert(nr[j + 1] == y);
                                }
                            }
                        }
                    }
                }
            }
            i = i + 1;
        }
        r
    }

    /// The pool of every open position, each once, in ascending order.
    pub fn get_pools(&self) -> (r: Vec<LiquidityPoolId>)
        requires
            self.wf(),
        ensures
            forall|i: int, j: int| 0 <= i < j < r@.len() ==> #[trigger] r@[i] < #[trigger] r@[j],
            forall|x: LiquidityPoolId| #[trigger] r@.contains(x) <==> exists|m: int|
                0 <= m < self.spec_positions().len() && (#[trigger] self.spec_positions()[m]).1.pool == x,
    {
        let mut r: Vec<LiquidityPoolId> = Vec::new();
        let n = self.positions.len();
        let mut i: usize = 0;
        while i < n
            invariant
                n == self.spec_positions().len(),
                i <= n,
                forall|a: int, b: int| 0 <= a < b < r@.len() ==> #[trigger] r@[a] < #[trigger] r@[b],
                forall|x: LiquidityPoolId| #[trigger] r@.contains(x) <==> exists|m: int|
                    0 <= m < i && (#[trigger] self.spec_positions()[m]).1.pool == x,
            decreases n - i,
        {
            let x = self.positions.value_at(i).pool;
            let mut k: usize = 0;
            while k < r.len() && r[k] < x
                invariant
                    k <= r@.len(),
                    forall|j: int| 0 <= j < k ==> #[trigger] r@[j] < x,
                decreases r@.len() - k,
            {
                k = k + 1;
            }
            let ghost old_r = r@;
            if k < r.len() && r[k] == x {
                proof {
                    assert forall|y: LiquidityPoolId| #[trigger] r@.contains(y) <==> exists|m: int|
                        0 <= m < i + 1 && (#[trigger] self.spec_positions()[m]).1.pool == y by {
                        if y == x {
                            assert(r@[k as int] == x);
                            assert(self.spec_positions()[i as int].1.pool == y);
                        }
                        if exists|m: int| 0 <= m < i + 1 && (#[trigger] self.spec_positions()[m]).1.pool == y {
                            let m = choose|m: int| 0 <= m < i + 1 && (#[trigger] self.spec_positions()[m]).1.pool == y;
                            if m == i {
                                assert(r@[k as int] == x);
                            }
                        }
                    }
                }
            } else {
                r.insert(k, x);
                proof {
                    let nr = r@;
                    assert forall|j: int| 0 <= j < nr.len() implies #[trigger] nr[j] == if j < k {
                        old_r[j]
                    } else if j == k {
                        x
                    } else {
                        old_r[j - 1]
                    } by {}
                    assert forall|a: int, b: int| 0 <= a < b < nr.len() implies #[trigger] nr[a] < #[trigger] nr[b] by {
                        if a < k && b > k {
                            assert(old_r[a] < old_r[b - 1]);
                        }
                        if a == k && b > k + 1 {
                            assert(old_r[k as int] < old_r[b - 1]);
                        }
                    }
                    assert forall|y: LiquidityPoolId| #[trigger] nr.contains(y) <==> exists|m: int|
                        0 <= m < i + 1 && (#[trigger] self.spec_positions()[m]).1.pool == y by {
                        if nr.contains(y) {
                            let j = choose|j: int| 0 <= j < nr.len() && nr[j] == y;
                            if j == k {
                                assert(self.spec_positions()[i as int].1.pool == y);
                            } else if j < k {
                                assert(old_r.contains(y));
                            } else {
                                assert(old_r[j - 1] == y);
                                assert(old_r.contains(y));
                            }
                        }
                        if exists|m: int| 0 <= m < i + 1 && (#[trigger] self.spec_positions()[m]).1.pool == y {
                            let m = choose|m: int| 0 <= m < i + 1 && (#[trigger] self.spec_positions()[m]).1.pool == y;
                            if m == i {
                                assert(nr[k as int] == x);
                            } else {
                                assert(old_r.contains(y));
                                let j = choose|j: int| 0 <= j < old_r.len() && old_r[j] == y;
                                if j < k {
                                    assert(nr[j] == y);
                                } else {
                                    assert(nr[j + 1] == y);
                                }
                            }
                        }
                    }
                }
            }
            i = i + 1;
        }
        r
    }

    /// The call the off-chain worker submits for `who` in `pool`, if any; `CheckFail` where
    /// the risk cannot be computed.
    pub fn trader_offchain_call(&self, pools: &MarginLiquidityPools, prices: &Prices, who: AccountId, pool: LiquidityPoolId) -> (r:
        Result<Option<OffchainCall>, OffchainErr>)
        requires
            self.wf(),
            pools.wf(),
            prices.wf(),
        ensures
            ({
                let c = self.spec_check_trader(*pools, *prices, who, pool, Action::Nothing);
                &&& c is Err ==> r == Err::<Option<OffchainCall>, OffchainErr>(OffchainErr::CheckFail)
                &&& c is Ok ==> r == Ok::<Option<OffchainCall>, OffchainErr>(
                    spec_trader_call(c->Ok_0, self.trader_margin_called(who, pool), who, pool),
                )
            }),
            r is Ok && r->Ok_0 is Some ==> self.spec_call_valid(*pools, *prices, r->Ok_0->0),
    {
        proof {
            let c = self.spec_check_trader(*pools, *prices, who, pool, Action::Nothing);
            if c is Ok && spec_trader_call(c->Ok_0, self.trader_margin_called(who, pool), who, pool) is Some {
                self.lemma_trader_calls_are_valid(*pools, *prices, who, pool);
            }
        }
        let risk = match self.check_trader(pools, prices, who, pool, Action::Nothing) {
            Ok(r) => r,
            Err(_) => {
                return Err(OffchainErr::CheckFail);
            },
        };
        let called = self.is_trader_margin_called(who, pool);
        Ok(
            match risk {
                Risk::StopOut => Some(OffchainCall::TraderStopOut(who, pool)),
                Risk::MarginCall => if !called {
                    Some(OffchainCall::TraderMarginCall(who, pool))
                } else {
                    None
                },
                Risk::Safe => if called {
                    Some(OffchainCall::TraderBecomeSafe(who, pool))
                } else {
                    None
                },
            },
        )
    }

    /// The call the off-chain worker submits for `pool`, if any; `CheckFail` where the risk
    /// cannot be computed.
    pub fn pool_offchain_call(&self, pools: &MarginLiquidityPools, prices: &Prices, pool: LiquidityPoolId) -> (r: Result<
        Option<OffchainCall>,
        OffchainErr,
    >)
        requires
            self.wf(),
            pools.wf(),
            prices.wf(),
        ensures
            ({
                let c = self.spec_check_pool(*pools, *prices, pool, Action::Nothing);
                &&& c is Err ==> r == Err::<Option<OffchainCall>, OffchainErr>(OffchainErr::CheckFail)
                &&& c is Ok ==> r == Ok::<Option<OffchainCall>, OffchainErr>(
                    spec_pool_call(c->Ok_0, self.pool_margin_called(pool), pool),
                )
            }),
            r is Ok && r->Ok_0 is Some ==> self.spec_call_valid(*pools, *prices, r->Ok_0->0),
    {
        proof {
            let c = self.spec_check_pool(*pools, *prices, pool, Action::Nothing);
            if c is Ok && spec_pool_call(c->Ok_0, self.pool_margin_called(pool), pool) is Some {
                self.lemma_pool_calls_are_valid(*pools, *prices, pool);
            }
        }
        let risk = match self.check_pool(pools, prices, pool, Action::Nothing) {
            Ok(r) => r,
            Err(_) => {
                return Err(OffchainErr::CheckFail);
            },
        };
        let called = self.is_pool_margin_called(pool);
        Ok(
            match risk {
                Risk::StopOut => Some(OffchainCall::LiquidityPoolForceClose(pool)),
                Risk::MarginCall => if !called {
                    Some(OffchainCall::LiquidityPoolMarginCall(pool))
                } else {
                    None
                },
                Risk::Safe => if called {
                    Some(OffchainCall::LiquidityPoolBecomeSafe(pool))
                } else {
                    None
                },
            },
        )
    }

    /// The calls the off-chain worker submits for the traders `ts`, in order, and whether the
    /// check of one of them failed; nothing is looked at after a failed check.
    pub open spec fn calls_for_traders(
        &self,
        pools: MarginLiquidityPools,
        prices: Prices,
        ts: Seq<(AccountId, LiquidityPoolId)>,
    ) -> (Seq<OffchainCall>, bool)
        decreases ts.len(),
    {
        if ts.len() == 0 {
            (Seq::empty(), false)
        } else {
            let prev = self.calls_for_traders(pools, prices, ts.drop_last());
            let who = ts.last().0;
            let pool = ts.last().1;
            if prev.1 {
                prev
            } else {
                match self.spec_check_trader(pools, prices, who, pool, Action::Nothing) {
                    Err(_) => (prev.0, true),
                    Ok(risk) => match spec_trader_call(risk, self.trader_margin_called(who, pool), who, pool) {
                        Some(c) => (prev.0.push(c), false),
                        None => (prev.0, false),
                    },
                }
            }
        }
    }

    /// The calls for the pools `ps` after those of `start`, in the same way.
    pub open spec fn calls_for_pools(
        &self,
        pools: MarginLiquidityPools,
        prices: Prices,
        start: (Seq<OffchainCall>, bool),
        ps: Seq<LiquidityPoolId>,
    ) -> (Seq<OffchainCall>, bool)
        decreases ps.len(),
    {
        if ps.len() == 0 {
            start
        } else {
            let prev = self.calls_for_pools(pools, prices, start, ps.drop_last());
            let pool = ps.last();
            if prev.1 {
                prev
            } else {
                match self.spec_check_pool(pools, prices, pool, Action::Nothing) {
                    Err(_) => (prev.0, true),
                    Ok(risk) => match spec_pool_call(risk, self.pool_margin_called(pool), pool) {
                        Some(c) => (prev.0.push(c), false),
                        None => (prev.0, false),
                    },
                }
            }
        }
    }

    /// `ts` lists each `(trader, pool)` of the open positions once, in ascending order.
    pub open spec fn lists_traders(&self, ts: Seq<(AccountId, LiquidityPoolId)>) -> bool {
        &&& forall|i: int, j: int| 0 <= i < j < ts.len() ==> trader_pool_lt(#[trigger] ts[i], #[trigger] ts[j])
        &&& forall|x: (AccountId, LiquidityPoolId)| #[trigger] ts.contains(x) <==> exists|m: int|
            0 <= m < self.spec_positions().len() && (#[trigger] self.spec_positions()[m]).1.owner == x.0
                && self.spec_positions()[m].1.pool == x.1
    }

    /// `ps` lists each pool with an open position once, in ascending order.
    pub open spec fn lists_pools(&self, ps: Seq<LiquidityPoolId>) -> bool {
        &&& forall|i: int, j: int| 0 <= i < j < ps.len() ==> #[trigger] ps[i] < #[trigger] ps[j]
        &&& forall|x: LiquidityPoolId| #[trigger] ps.contains(x) <==> exists|m: int|
            0 <= m < self.spec_positions().len() && (#[trigger] self.spec_positions()[m]).1.pool == x
    }

    /// The calls one run of the off-chain worker submits: for every `(trader, pool)` of the open
    /// positions in ascending order, then for every pool with an open position in ascending
    /// order; and whether it stopped at a failed check.
    pub fn worker_calls(&self, pools: &MarginLiquidityPools, prices: &Prices) -> (r: (Vec<OffchainCall>, bool))
        requires
            self.wf(),
            pools.wf(),
            prices.wf(),
        ensures
            exists|ts: Seq<(AccountId, LiquidityPoolId)>, ps: Seq<LiquidityPoolId>|
                #![trigger self.calls_for_pools(*pools, *prices, self.calls_for_traders(*pools, *prices, ts), ps)]
                {
                    &&& self.lists_traders(ts)
                    &&& self.lists_pools(ps)
                    &&& (r.0@, r.1) == self.calls_for_pools(*pools, *prices, self.calls_for_traders(*pools, *prices, ts), ps)
                },
    {
        let traders = self.get_traders();
        let pool_ids = self.get_pools();
        let r = self.offchain_calls(pools, prices, &traders, &pool_ids);
        proof {
            assert(self.lists_traders(traders@));
            assert(self.lists_pools(pool_ids@));
        }
        r
    }

    /// The calls one run of the off-chain worker submits, for `traders` and then `pool_ids`,
    /// and whether it stopped at a failed check.
    pub fn offchain_calls(
        &self,
        pools: &MarginLiquidityPools,
        prices: &Prices,
        traders: &Vec<(AccountId, LiquidityPoolId)>,
        pool_ids: &Vec<LiquidityPoolId>,
    ) -> (r: (Vec<OffchainCall>, bool))
        requires
            self.wf(),
            pools.wf(),
            prices.wf(),
        ensures
            (r.0@, r.1) == self.calls_for_pools(
                *pools,
                *prices,
                self.calls_for_traders(*pools, *prices, traders@),
                pool_ids@,
            ),
    {
        let mut calls: Vec<OffchainCall> = Vec::new();
        let mut failed = false;
        let mut i: usize = 0;
        while i < traders.len()
            invariant
                self.wf(),
                pools.wf(),
                prices.wf(),
                i <= traders.len(),
                (calls@, failed) == self.calls_for_traders(*pools, *prices, traders@.take(i as int)),
            decreases traders.len() - i,
        {
            proof {
                assert(traders@.take(i + 1).drop_last() =~= traders@.take(i as int));
            }
            if !failed {
                let (who, pool) = traders[i];
                match self.trader_offchain_call(pools, prices, who, pool) {
                    Err(_) => {
                        failed = true;
                    },
                    Ok(Some(c)) => {
                        calls.push(c);
                    },
                    Ok(None) => {},
                }
            }
            i = i + 1;
        }
        proof {
            assert(traders@.take(traders@.len() as int) =~= traders@);
        }
        let ghost start = (calls@, failed);
        let mut j: usize = 0;
        while j < pool_ids.len()
            invariant
                self.wf(),
                pools.wf(),
                prices.wf(),
                j <= pool_ids.len(),
                start == self.calls_for_traders(*pools, *prices, traders@),
                (calls@, failed) == self.calls_for_pools(*pools, *prices, start, pool_ids@.take(j as int)),
            decreases pool_ids.len() - j,
        {
            proof {
                assert(pool_ids@.take(j + 1).drop_last() =~= pool_ids@.take(j as int));
            }
            if !failed {
                let pool = pool_ids[j];
                match self.pool_offchain_call(pools, prices, pool) {
                    Err(_) => {
                        failed = true;
                    },
                    Ok(Some(c)) => {
                        calls.push(c);
                    },
                    Ok(None) => {},
                }
            }
            j = j + 1;
        }
        proof {
            assert(pool_ids@.take(pool_ids@.len() as int) =~= pool_ids@);
        }
        (calls, failed)
    }

    /// Whether `who` is at stop out risk in `pool`; `CheckFail` where the risk cannot be
    /// computed.
    fn should_stop_out_trader(&self, pools: &MarginLiquidityPools, prices: &Prices, who: AccountId, pool: LiquidityPoolId) -> (r:
        Result<bool, OffchainErr>)
        requires
            self.wf(),
            pools.wf(),
            prices.wf(),
        ensures
            r == match self.spec_check_trader(*pools, *prices, who, pool, Action::Nothing) {
                Ok(risk) => Ok::<bool, OffchainErr>(risk == Risk::StopOut),
                Err(_) => Err::<bool, OffchainErr>(OffchainErr::CheckFail),
            },
    {
        match self.check_trader(pools, prices, who, pool, Action::Nothing) {
            Ok(Risk::StopOut) => Ok(true),
            Ok(_) => Ok(false),
            Err(_) => Err(OffchainErr::CheckFail),
        }
    }

    /// Whether `pool` is at stop out risk; `CheckFail` where the risk cannot be computed.
    fn should_liquidate_pool(&self, pools: &MarginLiquidityPools, prices: &Prices, pool: LiquidityPoolId) -> (r: Result<
        bool,
        OffchainErr,
    >)
        requires
            self.wf(),
            pools.wf(),
            prices.wf(),
        ensures
            r == match self.spec_check_pool(*pools, *prices, pool, Action::Nothing) {
                Ok(risk) => Ok::<bool, OffchainErr>(risk == Risk::StopOut),
                Err(_) => Err::<bool, OffchainErr>(OffchainErr::CheckFail),
            },
    {
        match self.check_pool(pools, prices, pool, Action::Nothing) {
            Ok(Risk::StopOut) => Ok(true),
            Ok(_) => Ok(false),
            Err(_) => Err(OffchainErr::CheckFail),
        }
    }

    /// Whether an unsigned call is still worth including: a margin call of a trader or pool not
    /// margin called, a become-safe of one margin called, a stop out or force close at stop out
    /// risk.
    /// Whether `call` is still worth including: it would not be refused for the state it finds.
    pub open spec fn spec_call_valid(&self, pools: MarginLiquidityPools, prices: Prices, call: OffchainCall) -> bool {
        match call {
            OffchainCall::TraderMarginCall(who, pool) => !self.trader_margin_called(who, pool),
            OffchainCall::TraderBecomeSafe(who, pool) => self.trader_margin_called(who, pool),
            OffchainCall::TraderStopOut(who, pool) => self.spec_check_trader(pools, prices, who, pool, Action::Nothing)
                == Ok::<Risk, MarginError>(Risk::StopOut),
            OffchainCall::LiquidityPoolMarginCall(pool) => !self.pool_margin_called(pool),
            OffchainCall::LiquidityPoolBecomeSafe(pool) => self.pool_margin_called(pool),
            OffchainCall::LiquidityPoolForceClose(pool) => self.spec_check_pool(pools, prices, pool, Action::Nothing)
                == Ok::<Risk, MarginError>(Risk::StopOut),
        }
    }

    /// Every call the off-chain worker makes for a trader passes the check of unsigned calls
    /// on the state it was decided on.
    pub proof fn lemma_trader_calls_are_valid(
        &self,
        pools: MarginLiquidityPools,
        prices: Prices,
        who: AccountId,
        pool: LiquidityPoolId,
    )
        requires
            self.spec_check_trader(pools, prices, who, pool, Action::Nothing) is Ok,
            spec_trader_call(
                self.spec_check_trader(pools, prices, who, pool, Action::Nothing)->Ok_0,
                self.trader_margin_called(who, pool),
                who,
                pool,
            ) is Some,
        ensures
            self.spec_call_valid(
                pools,
                prices,
                spec_trader_call(
                    self.spec_check_trader(pools, prices, who, pool, Action::Nothing)->Ok_0,
                    self.trader_margin_called(who, pool),
                    who,
                    pool,
                )->0,
            ),
    {
    }

    /// Every call the off-chain worker makes for a pool passes the check of unsigned calls on
    /// the state it was decided on.
    pub proof fn lemma_pool_calls_are_valid(&self, pools: MarginLiquidityPools, prices: Prices, pool: LiquidityPoolId)
        requires
            self.spec_check_pool(pools, prices, pool, Action::Nothing) is Ok,
            spec_pool_call(
                self.spec_check_pool(pools, prices, pool, Action::Nothing)->Ok_0,
                self.pool_margin_called(pool),
                pool,
            ) is Some,
        ensures
            self.spec_call_valid(
                pools,
                prices,
                spec_pool_call(self.spec_check_pool(pools, prices, pool, Action::Nothing)->Ok_0, self.pool_margin_called(pool), pool)->0,
            ),
    {
    }

    pub fn validate_unsigned(&self, pools: &MarginLiquidityPools, prices: &Prices, call: OffchainCall) -> (r: bool)
        requires
            self.wf(),
            pools.wf(),
            prices.wf(),
        ensures
            r == self.spec_call_valid(*pools, *prices, call),
            r == match call {
                OffchainCall::TraderMarginCall(who, pool) => !self.trader_margin_called(who, pool),
                OffchainCall::TraderBecomeSafe(who, pool) => self.trader_margin_called(who, pool),
                OffchainCall::TraderStopOut(who, pool) => self.spec_check_trader(*pools, *prices, who, pool, Action::Nothing)
                    == Ok::<Risk, MarginError>(Risk::StopOut),
                OffchainCall::LiquidityPoolMarginCall(pool) => !self.pool_margin_called(pool),
                OffchainCall::LiquidityPoolBecomeSafe(pool) => self.pool_margin_called(pool),
                OffchainCall::LiquidityPoolForceClose(pool) => self.spec_check_pool(*pools, *prices, pool, Action::Nothing)
                    == Ok::<Risk, MarginError>(Risk::StopOut),
            },
    {
        match call {
            OffchainCall::TraderMarginCall(who, pool) => !self.is_trader_margin_called(who, pool),
            OffchainCall::TraderBecomeSafe(who, pool) => self.is_trader_margin_called(who, pool),
            OffchainCall::TraderStopOut(who, pool) => matches!(self.should_stop_out_trader(pools, prices, who, pool), Ok(true)),
            OffchainCall::LiquidityPoolMarginCall(pool) => !self.is_pool_margin_called(pool),
            OffchainCall::LiquidityPoolBecomeSafe(pool) => self.is_pool_margin_called(pool),
            OffchainCall::LiquidityPoolForceClose(pool) => matches!(self.should_liquidate_pool(pools, prices, pool), Ok(true)),
        }
    }
}

impl MarginProtocol {
    /// The positions count of every trading pair in every pool is the number of open
    /// positions of that pair in that pool.
    pub proof fn lemma_positions_count(&self, pool: LiquidityPoolId, pair: TradingPair)
        requires
            self.wf(),
        ensures
            self.snapshot(pool, pair).positions_count == count_in(self.spec_positions(), pool, pair),
    {
        let k = PoolPair { pool, pair };
        if self.snapshots.spec_get(k) is None {
            if count_in(self.positions.entries(), pool, pair) > 0 {
                assert(self.snapshots.spec_get(k) is Some);
            }
        }
    }

    /// The totals of every pair in every pool are the sums of the held amounts and debits of
    /// its open long and short positions, and every open position has the signs of its side.
    pub proof fn lemma_snapshot_totals(&self, pool: LiquidityPoolId, pair: TradingPair)
        requires
            self.wf(),
        ensures
            totals_match(self.snapshot(pool, pair), self.spec_positions(), pool, pair),
            forall|i: int| 0 <= i < self.spec_positions().len() ==> signs_ok((#[trigger] self.spec_positions()[i]).1),
    {
        let k = PoolPair { pool, pair };
        if self.snapshots.spec_get(k) is None {
            if count_in(self.positions.entries(), pool, pair) > 0 {
                assert(self.snapshots.spec_get(k) is Some);
            }
            lemma_side_sum_zero(self.positions.entries(), pool, pair, false, true);
            lemma_side_sum_zero(self.positions.entries(), pool, pair, false, false);
            lemma_side_sum_zero(self.positions.entries(), pool, pair, true, true);
            lemma_side_sum_zero(self.positions.entries(), pool, pair, true, false);
        }
    }

    /// Every open position has an id below the next one.
    pub proof fn lemma_position_ids(&self)
        requires
            self.wf(),
        ensures
            forall|i: int| 0 <= i < self.spec_positions().len() ==> (#[trigger] self.spec_positions()[i]).0
                < self.spec_next_position_id(),
    {
    }

}

/// Depositing an amount and withdrawing the same amount gives the balance back, where the
/// balance does not saturate in between.
pub proof fn lemma_deposit_withdraw(balance: i128, amount: Balance)
    requires
        fits(balance + fixed_of_balance(amount)),
    ensures
        spec_saturate_i128(spec_saturate_i128(balance + fixed_of_balance(amount)) - fixed_of_balance(amount))
            == balance,
{
}

} // verus!
