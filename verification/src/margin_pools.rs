//! Liquidity pools for the margin protocol: spreads, enabled leverages and swap rates of
//! trading pairs in each pool, and the periodic accumulation of swap rates.
use vstd::prelude::*;
use crate::arithmetic::fixed_i128_mul_signum;
use crate::base_pools::BaseLiquidityPools;
use crate::error::{DispatchError, MarginPoolsError};
use crate::fixed::{abs_nat, spec_fixed_saturating_mul, spec_saturate_i128, Fixed, Price};
use crate::primitives::{
    leverage_bits, AccountId, AccumulateConfig, Balance, Leverage, Leverages, LiquidityPoolId, Moment,
    SwapRate, TradingPair,
};
use crate::table::{Table, TableKey};

verus! {

/// One minute, in seconds.
pub const ONE_MINUTE: u64 = 60u64;

/// Options of a trading pair in the protocol.
#[derive(Clone, Copy, Debug, PartialEq, Eq, Structural)]
pub struct MarginTradingPairOption {
    /// Whether the pair is enabled for trading; not by default.
    pub enabled: bool,
    /// The max spread; the smaller of it and a pool's spread is used in trading.
    pub max_spread: Option<Price>,
    /// Swap rate; zero if not set.
    pub swap_rate: SwapRate,
    /// When swap rates are accumulated.
    pub accumulate_config: Option<AccumulateConfig>,
}

/// Options of a pool.
#[derive(Clone, Copy, Debug, PartialEq, Eq, Structural)]
pub struct MarginPoolOption {
    /// Additional swap rate, adjusting the swap rate of every pair in this pool; zero by default.
    pub additional_swap_rate: Fixed,
    /// Minimum leveraged amount of a position in this pool; the protocol default applies where
    /// it is larger.
    pub min_leveraged_amount: Balance,
}

/// Options of a trading pair in a pool.
#[derive(Clone, Copy, Debug, PartialEq, Eq, Structural)]
pub struct MarginPoolTradingPairOption {
    /// Whether the pair is enabled in the pool; not by default.
    pub enabled: bool,
    /// Bid spread; `None` until the owner sets it.
    pub bid_spread: Option<Price>,
    /// Ask spread; `None` until the owner sets it.
    pub ask_spread: Option<Price>,
    /// Enabled leverages; none by default.
    pub enabled_trades: Leverages,
}

/// Why a position cannot be opened in a pool.
#[derive(Clone, Copy, Debug, PartialEq, Eq, Structural)]
pub enum OpenPositionError {
    LeverageNotAllowedInPool,
    TradingPairNotEnabled,
    TradingPairNotEnabledInPool,
    BelowMinLeveragedAmount,
}

/// Key of per-pool, per-pair storage.
#[derive(Clone, Copy, Debug, PartialEq, Eq, Structural)]
pub struct PoolPair {
    pub pool: LiquidityPoolId,
    pub pair: TradingPair,
}

impl TableKey for PoolPair {
    fn key_eq(&self, other: &Self) -> (r: bool) {
        *self == *other
    }
}

pub open spec fn default_pair_option() -> MarginTradingPairOption {
    MarginTradingPairOption {
        enabled: false,
        max_spread: None,
        swap_rate: SwapRate { long: Fixed { inner: 0 }, short: Fixed { inner: 0 } },
        accumulate_config: None,
    }
}

pub open spec fn default_pool_option() -> MarginPoolOption {
    MarginPoolOption { additional_swap_rate: Fixed { inner: 0 }, min_leveraged_amount: 0 }
}

pub open spec fn default_pool_pair_option() -> MarginPoolTradingPairOption {
    MarginPoolTradingPairOption {
        enabled: false,
        bid_spread: None,
        ask_spread: None,
        enabled_trades: Leverages { bits: 0 },
    }
}

pub open spec fn zero_swap_rate() -> SwapRate {
    SwapRate { long: Fixed { inner: 0 }, short: Fixed { inner: 0 } }
}

/// A spread capped by the max spread, if there is one.
pub open spec fn spec_min_spread(spread: Option<Price>, max: Option<Price>) -> Option<Price> {
    match (spread, max) {
        (Some(s), Some(m)) => if s.inner <= m.inner {
            Some(s)
        } else {
            Some(m)
        },
        _ => spread,
    }
}

fn min_spread(spread: Option<Price>, max: Option<Price>) -> (r: Option<Price>)
    ensures
        r == spec_min_spread(spread, max),
{
    match (spread, max) {
        (Some(s), Some(m)) => if s.inner <= m.inner {
            Some(s)
        } else {
            Some(m)
        },
        _ => spread,
    }
}

/// `|x|` as a fixed-point number, saturating.
pub open spec fn spec_saturating_abs(x: i128) -> i128 {
    spec_saturate_i128(abs_nat(x as int) as int)
}

/// The swap rate of a pool: `rate - |rate| * additional`, clamped to `[-max_swap, max_swap]`,
/// all on saturating fixed-point arithmetic.
pub open spec fn spec_adjusted_swap_rate(rate: i128, additional: i128, max_swap: i128) -> i128 {
    let adjust = spec_saturate_i128(rate - spec_fixed_saturating_mul(spec_saturating_abs(rate), additional));
    if spec_saturating_abs(adjust) <= max_swap {
        adjust
    } else if adjust > 0 {
        max_swap
    } else {
        spec_saturate_i128(max_swap * -1)
    }
}

/// Accumulation is due for a pair at `now` (seconds): whole minutes of `now` are positive and,
/// counted in whole minutes, `now % frequency == offset`.
pub open spec fn accumulate_due(cfg: Option<AccumulateConfig>, now: u64) -> bool {
    match cfg {
        Some(c) => {
            let now_mins = now / 60;
            let freq_mins = c.frequency / 60;
            &&& now_mins > 0
            &&& freq_mins > 0
            &&& now_mins % freq_mins == c.offset / 60
        },
        None => false,
    }
}

/// `now` truncated to whole minutes, in seconds.
pub open spec fn truncated_to_minute(now: u64) -> u64 {
    ((now / 60) * 60) as u64
}

/// The accumulated swap rate after one more accumulation of the given rates.
pub open spec fn accumulated_after(acc: SwapRate, long: i128, short: i128) -> SwapRate {
    SwapRate {
        long: Fixed { inner: spec_saturate_i128(acc.long.inner + long) },
        short: Fixed { inner: spec_saturate_i128(acc.short.inner + short) },
    }
}

fn pools_err(e: MarginPoolsError) -> (r: DispatchError)
    ensures
        r == DispatchError::MarginLiquidityPools(e),
{
    DispatchError::MarginLiquidityPools(e)
}

/// The keys of `t` that belong to `pool`.
fn pool_keys<V>(t: &Table<PoolPair, V>, pool: LiquidityPoolId) -> (ks: Vec<PoolPair>)
    requires
        t.wf(),
    ensures
        forall|m: int| 0 <= m < ks@.len() ==> (#[trigger] ks@[m]).pool == pool,
        forall|q: TradingPair| #[trigger] t.spec_get(PoolPair { pool, pair: q }) is Some ==> ks@.contains(
            PoolPair { pool, pair: q },
        ),
{
    let mut ks: Vec<PoolPair> = Vec::new();
    let n = t.len();
    let mut i: usize = 0;
    while i < n
        invariant
            t.wf(),
            n == t.entries().len(),
            i <= n,
            forall|m: int| 0 <= m < ks@.len() ==> (#[trigger] ks@[m]).pool == pool,
            forall|j: int|
                0 <= j < i && (#[trigger] t.entries()[j]).0.pool == pool ==> ks@.contains(t.entries()[j].0),
        decreases n - i,
    {
        let k = t.key_at(i);
        let ghost old_ks = ks@;
        if k.pool == pool {
            ks.push(k);
            proof {
                assert(ks@[ks@.len() - 1] == k);
                assert forall|j: int| 0 <= j < i + 1 && (#[trigger] t.entries()[j]).0.pool == pool implies ks@.contains(
                    t.entries()[j].0,
                ) by {
                    if j < i {
                        let m = choose|m: int| 0 <= m < old_ks.len() && old_ks[m] == t.entries()[j].0;
                        assert(ks@[m] == old_ks[m]);
                    }
                }
            }
        }
        i = i + 1;
    }
    proof {
        t.lemma_wf();
        assert forall|q: TradingPair| #[trigger] t.spec_get(PoolPair { pool, pair: q }) is Some implies ks@.contains(
            PoolPair { pool, pair: q },
        ) by {
            let k = PoolPair { pool, pair: q };
            assert(t.spec_contains(k));
            let j = choose|j: int| 0 <= j < t.entries().len() && t.entries()[j].0 == k;
            assert(t.entries()[j].0.pool == pool);
        }
    }
    ks
}

/// Whether accumulation is due for `cfg` at `now`.
fn is_accumulate_due(cfg: Option<AccumulateConfig>, now: u64) -> (r: bool)
    ensures
        r == accumulate_due(cfg, now),
{
    match cfg {
        Some(c) => {
            let now_mins = now / ONE_MINUTE;
            let freq_mins = c.frequency / ONE_MINUTE;
            now_mins > 0 && freq_mins > 0 && now_mins % freq_mins == c.offset / ONE_MINUTE
        },
        None => false,
    }
}

/// The margin liquidity pools module.
pub struct MarginLiquidityPools {
    pub(crate) base: BaseLiquidityPools,
    pub(crate) trading_pair_options: Table<TradingPair, MarginTradingPairOption>,
    pub(crate) pool_options: Table<LiquidityPoolId, MarginPoolOption>,
    pub(crate) pool_trading_pair_options: Table<PoolPair, MarginPoolTradingPairOption>,
    pub(crate) accumulated_swap_rates: Table<PoolPair, SwapRate>,
    pub(crate) default_min_leveraged_amount: Balance,
    pub(crate) last_accumulate_time: Moment,
    pub(crate) max_swap: Fixed,
    pub(crate) update_origin: AccountId,
}

impl MarginLiquidityPools {
    pub closed spec fn wf(&self) -> bool {
        &&& self.base.wf()
        &&& self.trading_pair_options.wf()
        &&& self.pool_options.wf()
        &&& self.pool_trading_pair_options.wf()
        &&& self.accumulated_swap_rates.wf()
    }

    /// The underlying base pools.
    pub closed spec fn spec_base(&self) -> BaseLiquidityPools {
        self.base
    }

    /// Well-formed pools have well-formed base pools.
    pub proof fn lemma_base_wf(&self)
        requires
            self.wf(),
        ensures
            self.spec_base().wf(),
    {
    }

    /// Options of `pair` in the protocol.
    pub closed spec fn pair_option(&self, pair: TradingPair) -> MarginTradingPairOption {
        match self.trading_pair_options.spec_get(pair) {
            Some(o) => o,
            None => default_pair_option(),
        }
    }

    /// Pairs with stored options, in the order they were first stored, with their options.
    pub closed spec fn pair_entries(&self) -> Seq<(TradingPair, MarginTradingPairOption)> {
        self.trading_pair_options.entries()
    }

    /// Options of `pool`.
    pub closed spec fn pool_option(&self, pool: LiquidityPoolId) -> MarginPoolOption {
        match self.pool_options.spec_get(pool) {
            Some(o) => o,
            None => default_pool_option(),
        }
    }

    /// Stored options of `pair` in `pool`, before capping the spreads.
    pub closed spec fn stored_pool_pair_option(&self, pool: LiquidityPoolId, pair: TradingPair) -> MarginPoolTradingPairOption {
        match self.pool_trading_pair_options.spec_get(PoolPair { pool, pair }) {
            Some(o) => o,
            None => default_pool_pair_option(),
        }
    }

    /// Accumulated swap rate of `pair` in `pool`.
    pub closed spec fn accumulated(&self, pool: LiquidityPoolId, pair: TradingPair) -> SwapRate {
        match self.accumulated_swap_rates.spec_get(PoolPair { pool, pair }) {
            Some(r) => r,
            None => zero_swap_rate(),
        }
    }

    pub closed spec fn spec_default_min_leveraged_amount(&self) -> Balance {
        self.default_min_leveraged_amount
    }

    pub closed spec fn spec_last_accumulate_time(&self) -> Moment {
        self.last_accumulate_time
    }

    /// The bound of every swap rate.
    pub closed spec fn spec_max_swap(&self) -> Fixed {
        self.max_swap
    }

    pub closed spec fn spec_update_origin(&self) -> AccountId {
        self.update_origin
    }

    /// Options of `pair` in `pool`, with spreads capped by the max spread of the pair.
    pub open spec fn pool_pair_option(&self, pool: LiquidityPoolId, pair: TradingPair) -> MarginPoolTradingPairOption {
        let o = self.stored_pool_pair_option(pool, pair);
        let m = self.pair_option(pair).max_spread;
        MarginPoolTradingPairOption {
            bid_spread: spec_min_spread(o.bid_spread, m),
            ask_spread: spec_min_spread(o.ask_spread, m),
            ..o
        }
    }

    /// The larger of the pool's and the protocol's minimum leveraged amount.
    pub open spec fn spec_min_leveraged_amount(&self, pool: LiquidityPoolId) -> Balance {
        let p = self.pool_option(pool).min_leveraged_amount;
        let d = self.spec_default_min_leveraged_amount();
        if p >= d {
            p
        } else {
            d
        }
    }

    /// The swap rate of the long or short side of `pair` in `pool`.
    pub open spec fn spec_swap_rate(&self, pool: LiquidityPoolId, pair: TradingPair, is_long: bool) -> i128 {
        let rate = self.pair_option(pair).swap_rate;
        spec_adjusted_swap_rate(
            if is_long {
                rate.long.inner
            } else {
                rate.short.inner
            },
            self.pool_option(pool).additional_swap_rate.inner,
            self.spec_max_swap().inner,
        )
    }

    /// Whether `leverage` is enabled for `pair` in `pool`.
    pub open spec fn spec_leverage_enabled(&self, pool: LiquidityPoolId, pair: TradingPair, leverage: Leverage) -> bool {
        self.pool_pair_option(pool, pair).enabled_trades.bits & leverage_bits(leverage) != 0
    }

    /// The answer of `ensure_can_open_position`.
    pub open spec fn spec_can_open(
        &self,
        pool: LiquidityPoolId,
        pair: TradingPair,
        leverage: Leverage,
        leveraged_amount: Balance,
    ) -> Result<(), OpenPositionError> {
        if !self.spec_leverage_enabled(pool, pair, leverage) {
            Err(OpenPositionError::LeverageNotAllowedInPool)
        } else if !self.pair_option(pair).enabled {
            Err(OpenPositionError::TradingPairNotEnabled)
        } else if !self.stored_pool_pair_option(pool, pair).enabled {
            Err(OpenPositionError::TradingPairNotEnabledInPool)
        } else if leveraged_amount < self.spec_min_leveraged_amount(pool) {
            Err(OpenPositionError::BelowMinLeveragedAmount)
        } else {
            Ok(())
        }
    }

    /// The pair whose accumulation `on_initialize` makes at `now`: the first stored pair that
    /// is due, unless the last accumulation happened in the same minute.
    pub open spec fn pair_to_accumulate(&self, now: u64) -> Option<TradingPair> {
        let s = self.pair_entries();
        if self.spec_last_accumulate_time() != truncated_to_minute(now) && exists|i: int|
            0 <= i < s.len() && accumulate_due(s[i].1.accumulate_config, now) && (forall|j: int|
                0 <= j < i ==> !accumulate_due(#[trigger] s[j].1.accumulate_config, now)) {
            let i = choose|i: int|
                0 <= i < s.len() && accumulate_due(s[i].1.accumulate_config, now) && (forall|j: int|
                    0 <= j < i ==> !accumulate_due(#[trigger] s[j].1.accumulate_config, now));
            Some(s[i].0)
        } else {
            None
        }
    }

    /// Everything but the base pools is the same.
    pub open spec fn same_except_base(&self, other: &MarginLiquidityPools) -> bool {
        &&& forall|q: TradingPair| #[trigger] other.pair_option(q) == self.pair_option(q)
        &&& other.pair_entries() == self.pair_entries()
        &&& forall|p: LiquidityPoolId| #[trigger] other.pool_option(p) == self.pool_option(p)
        &&& forall|p: LiquidityPoolId, q: TradingPair| #[trigger] other.stored_pool_pair_option(p, q)
            == self.stored_pool_pair_option(p, q)
        &&& forall|p: LiquidityPoolId, q: TradingPair| #[trigger] other.accumulated(p, q) == self.accumulated(p, q)
        &&& other.spec_default_min_leveraged_amount() == self.spec_default_min_leveraged_amount()
        &&& other.spec_last_accumulate_time() == self.spec_last_accumulate_time()
        &&& other.spec_max_swap() == self.spec_max_swap()
        &&& other.spec_update_origin() == self.spec_update_origin()
    }

    /// Everything but the options of pairs is the same.
    pub open spec fn same_except_pair_options(&self, other: &MarginLiquidityPools) -> bool {
        &&& other.spec_base() == self.spec_base()
        &&& forall|p: LiquidityPoolId| #[trigger] other.pool_option(p) == self.pool_option(p)
        &&& forall|p: LiquidityPoolId, q: TradingPair| #[trigger] other.stored_pool_pair_option(p, q)
            == self.stored_pool_pair_option(p, q)
        &&& forall|p: LiquidityPoolId, q: TradingPair| #[trigger] other.accumulated(p, q) == self.accumulated(p, q)
        &&& other.spec_default_min_leveraged_amount() == self.spec_default_min_leveraged_amount()
        &&& other.spec_last_accumulate_time() == self.spec_last_accumulate_time()
        &&& other.spec_max_swap() == self.spec_max_swap()
        &&& other.spec_update_origin() == self.spec_update_origin()
    }

    /// Everything but the options of pools and of pairs in pools is the same.
    pub open spec fn same_except_pool_options(&self, other: &MarginLiquidityPools) -> bool {
        &&& other.spec_base() == self.spec_base()
        &&& forall|q: TradingPair| #[trigger] other.pair_option(q) == self.pair_option(q)
        &&& other.pair_entries() == self.pair_entries()
        &&& forall|p: LiquidityPoolId, q: TradingPair| #[trigger] other.accumulated(p, q) == self.accumulated(p, q)
        &&& other.spec_default_min_leveraged_amount() == self.spec_default_min_leveraged_amount()
        &&& other.spec_last_accumulate_time() == self.spec_last_accumulate_time()
        &&& other.spec_max_swap() == self.spec_max_swap()
        &&& other.spec_update_origin() == self.spec_update_origin()
    }

    /// Only the options of `pair` in `pool` may differ.
    pub open spec fn same_except_pool_pair(&self, other: &MarginLiquidityPools, pool: LiquidityPoolId, pair: TradingPair) -> bool {
        &&& self.same_except_pool_options(other)
        &&& forall|p: LiquidityPoolId| #[trigger] other.pool_option(p) == self.pool_option(p)
        &&& forall|p: LiquidityPoolId, q: TradingPair|
            !(p == pool && q == pair) ==> #[trigger] other.stored_pool_pair_option(p, q)
                == self.stored_pool_pair_option(p, q)
    }

    /// Only the options of `pair` may differ.
    pub open spec fn same_except_pair(&self, other: &MarginLiquidityPools, pair: TradingPair) -> bool {
        &&& self.same_except_pair_options(other)
        &&& forall|q: TradingPair| q != pair ==> #[trigger] other.pair_option(q) == self.pair_option(q)
    }

    /// A module with no options; swap rates are bounded by `max_swap`.
    pub fn new(
        base: BaseLiquidityPools,
        max_swap: Fixed,
        default_min_leveraged_amount: Balance,
        update_origin: AccountId,
    ) -> (r: MarginLiquidityPools)
        requires
            base.wf(),
        ensures
            r.wf(),
            r.spec_base() == base,
            r.spec_max_swap() == max_swap,
            r.spec_default_min_leveraged_amount() == default_min_leveraged_amount,
            r.spec_update_origin() == update_origin,
            r.spec_last_accumulate_time() == 0,
            r.pair_entries() == Seq::<(TradingPair, MarginTradingPairOption)>::empty(),
            forall|q: TradingPair| #[trigger] r.pair_option(q) == default_pair_option(),
            forall|p: LiquidityPoolId| #[trigger] r.pool_option(p) == default_pool_option(),
            forall|p: LiquidityPoolId, q: TradingPair| #[trigger] r.stored_pool_pair_option(p, q)
                == default_pool_pair_option(),
            forall|p: LiquidityPoolId, q: TradingPair| #[trigger] r.accumulated(p, q) == zero_swap_rate(),
    {
        MarginLiquidityPools {
            base,
            trading_pair_options: Table::new(),
            pool_options: Table::new(),
            pool_trading_pair_options: Table::new(),
            accumulated_swap_rates: Table::new(),
            default_min_leveraged_amount,
            last_accumulate_time: 0,
            max_swap,
            update_origin,
        }
    }

    /// Sets up `pair` at genesis: enabled, with a max spread, an accumulation config and a
    /// swap rate.
    pub fn configure_trading_pair(
        &mut self,
        pair: TradingPair,
        max_spread: Price,
        accumulate_config: AccumulateConfig,
        swap_rate: SwapRate,
    )
        requires
            old(self).wf(),
        ensures
            final(self).wf(),
            final(self).pair_option(pair) == (MarginTradingPairOption {
                enabled: true,
                max_spread: Some(max_spread),
                swap_rate,
                accumulate_config: Some(accumulate_config),
            }),
            old(self).same_except_pair(&*final(self), pair),
    {
        self.trading_pair_options.insert(
            pair,
            MarginTradingPairOption {
                enabled: true,
                max_spread: Some(max_spread),
                swap_rate,
                accumulate_config: Some(accumulate_config),
            },
        );
    }

    /// The underlying base pools.
    pub fn base(&self) -> (r: &BaseLiquidityPools)
        ensures
            *r == self.spec_base(),
            self.wf() ==> r.wf(),
    {
        &self.base
    }

    /// The underlying base pools, for changes.
    pub fn base_mut(&mut self) -> (r: &mut BaseLiquidityPools)
        ensures
            *r == old(self).spec_base(),
            final(self).spec_base() == *final(r),
            old(self).wf() && final(r).wf() ==> final(self).wf(),
            *final(r) == old(self).spec_base() ==> *final(self) == *old(self),
            forall|q: TradingPair| #[trigger] final(self).pair_option(q) == old(self).pair_option(q),
            final(self).pair_entries() == old(self).pair_entries(),
            forall|p: LiquidityPoolId| #[trigger] final(self).pool_option(p) == old(self).pool_option(p),
            forall|p: LiquidityPoolId, q: TradingPair| #[trigger] final(self).stored_pool_pair_option(p, q)
                == old(self).stored_pool_pair_option(p, q),
            forall|p: LiquidityPoolId, q: TradingPair| #[trigger] final(self).accumulated(p, q)
                == old(self).accumulated(p, q),
            final(self).spec_default_min_leveraged_amount() == old(self).spec_default_min_leveraged_amount(),
            final(self).spec_last_accumulate_time() == old(self).spec_last_accumulate_time(),
            final(self).spec_max_swap() == old(self).spec_max_swap(),
            final(self).spec_update_origin() == old(self).spec_update_origin(),
    {
        &mut self.base
    }

    pub fn trading_pair_options(&self, pair: TradingPair) -> (r: MarginTradingPairOption)
        requires
            self.wf(),
        ensures
            r == self.pair_option(pair),
    {
        match self.trading_pair_options.get_copy(&pair) {
            Some(o) => o,
            None => MarginTradingPairOption {
                enabled: false,
                max_spread: None,
                swap_rate: SwapRate::zero(),
                accumulate_config: None,
            },
        }
    }

    pub fn pool_options(&self, pool_id: LiquidityPoolId) -> (r: MarginPoolOption)
        requires
            self.wf(),
        ensures
            r == self.pool_option(pool_id),
    {
        match self.pool_options.get_copy(&pool_id) {
            Some(o) => o,
            None => MarginPoolOption { additional_swap_rate: Fixed::zero(), min_leveraged_amount: 0 },
        }
    }

    fn stored_pool_pair(&self, pool_id: LiquidityPoolId, pair: TradingPair) -> (r: MarginPoolTradingPairOption)
        requires
            self.wf(),
        ensures
            r == self.stored_pool_pair_option(pool_id, pair),
    {
        match self.pool_trading_pair_options.get_copy(&PoolPair { pool: pool_id, pair }) {
            Some(o) => o,
            None => MarginPoolTradingPairOption {
                enabled: false,
                bid_spread: None,
                ask_spread: None,
                enabled_trades: Leverages::none(),
            },
        }
    }

    /// Accumulated swap rates of `pair` in `pool_id`.
    pub fn accumulated_swap_rates(&self, pool_id: LiquidityPoolId, pair: TradingPair) -> (r: SwapRate)
        requires
            self.wf(),
        ensures
            r == self.accumulated(pool_id, pair),
    {
        match self.accumulated_swap_rates.get_copy(&PoolPair { pool: pool_id, pair }) {
            Some(o) => o,
            None => SwapRate::zero(),
        }
    }

    pub fn max_spread(&self, pair: TradingPair) -> (r: Option<Price>)
        requires
            self.wf(),
        ensures
            r == self.pair_option(pair).max_spread,
    {
        self.trading_pair_options(pair).max_spread
    }

    pub fn accumulate_config(&self, pair: TradingPair) -> (r: Option<AccumulateConfig>)
        requires
            self.wf(),
        ensures
            r == self.pair_option(pair).accumulate_config,
    {
        self.trading_pair_options(pair).accumulate_config
    }

    /// The protocol swap rate of `pair`, before any pool adjustment.
    pub fn swap_rate_of_pair(&self, pair: TradingPair) -> (r: SwapRate)
        requires
            self.wf(),
        ensures
            r == self.pair_option(pair).swap_rate,
    {
        self.trading_pair_options(pair).swap_rate
    }

    pub fn is_trading_pair_enabled(&self, pair: TradingPair) -> (r: bool)
        requires
            self.wf(),
        ensures
            r == self.pair_option(pair).enabled,
    {
        self.trading_pair_options(pair).enabled
    }

    pub fn additional_swap_rate(&self, pool_id: LiquidityPoolId) -> (r: Fixed)
        requires
            self.wf(),
        ensures
            r == self.pool_option(pool_id).additional_swap_rate,
    {
        self.pool_options(pool_id).additional_swap_rate
    }

    pub fn default_min_leveraged_amount(&self) -> (r: Balance)
        ensures
            r == self.spec_default_min_leveraged_amount(),
    {
        self.default_min_leveraged_amount
    }

    pub fn last_accumulate_time(&self) -> (r: Moment)
        ensures
            r == self.spec_last_accumulate_time(),
    {
        self.last_accumulate_time
    }

    /// Minimum leveraged amount of a position in `pool_id`: the larger of the pool's and the
    /// protocol's.
    pub fn min_leveraged_amount(&self, pool_id: LiquidityPoolId) -> (r: Balance)
        requires
            self.wf(),
        ensures
            r == self.spec_min_leveraged_amount(pool_id),
    {
        let p = self.pool_options(pool_id).min_leveraged_amount;
        if p >= self.default_min_leveraged_amount {
            p
        } else {
            self.default_min_leveraged_amount
        }
    }

    /// Options of `pair` in `pool_id`; bid and ask spreads are capped by the max spread.
    pub fn pool_trading_pair_options(&self, pool_id: LiquidityPoolId, pair: TradingPair) -> (r:
        MarginPoolTradingPairOption)
        requires
            self.wf(),
        ensures
            r == self.pool_pair_option(pool_id, pair),
    {
        let mut option = self.stored_pool_pair(pool_id, pair);
        let m = self.max_spread(pair);
        option.bid_spread = min_spread(option.bid_spread, m);
        option.ask_spread = min_spread(option.ask_spread, m);
        option
    }

    pub fn is_pool_trading_pair_enabled(&self, pool_id: LiquidityPoolId, pair: TradingPair) -> (r: bool)
        requires
            self.wf(),
        ensures
            r == self.stored_pool_pair_option(pool_id, pair).enabled,
    {
        self.stored_pool_pair(pool_id, pair).enabled
    }

    pub fn is_pool_trading_pair_leverage_enabled(
        &self,
        pool_id: LiquidityPoolId,
        pair: TradingPair,
        leverage: Leverage,
    ) -> (r: bool)
        requires
            self.wf(),
        ensures
            r == self.spec_leverage_enabled(pool_id, pair, leverage),
    {
        self.pool_trading_pair_options(pool_id, pair).enabled_trades.contains(leverage)
    }

    /// Whether positions with `leverage` may be opened for `pair` in `pool_id`.
    pub fn is_allowed_position(&self, pool_id: LiquidityPoolId, pair: TradingPair, leverage: Leverage) -> (r: bool)
        requires
            self.wf(),
        ensures
            r == self.spec_leverage_enabled(pool_id, pair, leverage),
    {
        self.is_pool_trading_pair_leverage_enabled(pool_id, pair, leverage)
    }

    /// Bid spread of `pair` in `pool_id`, capped by the max spread; `None` if not set.
    pub fn bid_spread(&self, pool_id: LiquidityPoolId, pair: TradingPair) -> (r: Option<Price>)
        requires
            self.wf(),
        ensures
            r == self.pool_pair_option(pool_id, pair).bid_spread,
    {
        self.pool_trading_pair_options(pool_id, pair).bid_spread
    }

    /// Ask spread of `pair` in `pool_id`, capped by the max spread; `None` if not set.
    pub fn ask_spread(&self, pool_id: LiquidityPoolId, pair: TradingPair) -> (r: Option<Price>)
        requires
            self.wf(),
        ensures
            r == self.pool_pair_option(pool_id, pair).ask_spread,
    {
        self.pool_trading_pair_options(pool_id, pair).ask_spread
    }

    /// The swap rate of one side of `pair` in `pool_id`: the protocol rate adjusted by the
    /// pool's additional rate, `rate - |rate| * additional`, and clamped to the max swap.
    pub fn swap_rate(&self, pool_id: LiquidityPoolId, pair: TradingPair, is_long: bool) -> (r: Fixed)
        requires
            self.wf(),
        ensures
            r.inner == self.spec_swap_rate(pool_id, pair, is_long),
            self.spec_max_swap().inner >= 0 ==> spec_saturating_abs(r.inner) <= self.spec_max_swap().inner,
    {
        let max_swap = self.max_swap;
        let rates = self.swap_rate_of_pair(pair);
        let additional = self.additional_swap_rate(pool_id);
        let rate = if is_long {
            rates.long
        } else {
            rates.short
        };
        let adjust = rate.saturating_sub(&rate.saturating_abs().saturating_mul(&additional));
        if adjust.saturating_abs().inner <= max_swap.inner {
            adjust
        } else if adjust.is_positive() {
            max_swap
        } else {
            fixed_i128_mul_signum(max_swap, -1)
        }
    }

    /// The accumulated swap rate of one side of `pair` in `pool_id`.
    pub fn accumulated_swap_rate(&self, pool_id: LiquidityPoolId, pair: TradingPair, is_long: bool) -> (r: Fixed)
        requires
            self.wf(),
        ensures
            r == if is_long {
                self.accumulated(pool_id, pair).long
            } else {
                self.accumulated(pool_id, pair).short
            },
    {
        let acc = self.accumulated_swap_rates(pool_id, pair);
        if is_long {
            acc.long
        } else {
            acc.short
        }
    }

    /// Whether a position with `leverage` and `leveraged_amount` may be opened for `pair` in
    /// `pool_id`.
    pub fn can_open_position(
        &self,
        pool_id: LiquidityPoolId,
        pair: TradingPair,
        leverage: Leverage,
        leveraged_amount: Balance,
    ) -> (r: bool)
        requires
            self.wf(),
        ensures
            r == self.spec_can_open(pool_id, pair, leverage, leveraged_amount) is Ok,
    {
        self.ensure_can_open_position(pool_id, pair, leverage, leveraged_amount).is_ok()
    }

    /// `Ok` iff a position with `leverage` and `leveraged_amount` may be opened for `pair` in
    /// `pool_id`; else the first check that fails.
    pub fn ensure_can_open_position(
        &self,
        pool_id: LiquidityPoolId,
        pair: TradingPair,
        leverage: Leverage,
        leveraged_amount: Balance,
    ) -> (r: Result<(), OpenPositionError>)
        requires
            self.wf(),
        ensures
            r == self.spec_can_open(pool_id, pair, leverage, leveraged_amount),
    {
        if !self.is_pool_trading_pair_leverage_enabled(pool_id, pair, leverage) {
            return Err(OpenPositionError::LeverageNotAllowedInPool);
        }
        if !self.is_trading_pair_enabled(pair) {
            return Err(OpenPositionError::TradingPairNotEnabled);
        }
        if !self.is_pool_trading_pair_enabled(pool_id, pair) {
            return Err(OpenPositionError::TradingPairNotEnabledInPool);
        }
        if leveraged_amount < self.min_leveraged_amount(pool_id) {
            return Err(OpenPositionError::BelowMinLeveragedAmount);
        }
        Ok(())
    }

    fn store_pool_pair(&mut self, pool_id: LiquidityPoolId, pair: TradingPair, o: MarginPoolTradingPairOption)
        requires
            old(self).wf(),
        ensures
            final(self).wf(),
            final(self).stored_pool_pair_option(pool_id, pair) == o,
            old(self).same_except_pool_pair(&*final(self), pool_id, pair),
    {
        self.pool_trading_pair_options.insert(PoolPair { pool: pool_id, pair }, o);
    }

    fn store_pair(&mut self, pair: TradingPair, o: MarginTradingPairOption)
        requires
            old(self).wf(),
        ensures
            final(self).wf(),
            final(self).pair_option(pair) == o,
            old(self).same_except_pair(&*final(self), pair),
    {
        self.trading_pair_options.insert(pair, o);
    }

    /// Sets the bid and ask spread of `pair` in a pool owned by `who`.
    pub fn set_spread(
        &mut self,
        who: AccountId,
        pool_id: LiquidityPoolId,
        pair: TradingPair,
        bid: Price,
        ask: Price,
    ) -> (r: Result<(), DispatchError>)
        requires
            old(self).wf(),
        ensures
            final(self).wf(),
            r is Ok <==> old(self).spec_base().spec_is_owner(pool_id, who),
            r is Err ==> r == Err::<(), DispatchError>(DispatchError::MarginLiquidityPools(MarginPoolsError::NoPermission))
                && *final(self) == *old(self),
            r is Ok ==> final(self).stored_pool_pair_option(pool_id, pair) == (MarginPoolTradingPairOption {
                bid_spread: Some(bid),
                ask_spread: Some(ask),
                ..old(self).stored_pool_pair_option(pool_id, pair)
            }) && old(self).same_except_pool_pair(&*final(self), pool_id, pair),
    {
        if !self.base.is_owner(pool_id, who) {
            return Err(pools_err(MarginPoolsError::NoPermission));
        }
        let mut o = self.stored_pool_pair(pool_id, pair);
        o.bid_spread = Some(bid);
        o.ask_spread = Some(ask);
        self.store_pool_pair(pool_id, pair, o);
        Ok(())
    }

    /// Sets the enabled leverages of `pair` in a pool owned by `who`.
    pub fn set_enabled_trades(
        &mut self,
        who: AccountId,
        pool_id: LiquidityPoolId,
        pair: TradingPair,
        enabled: Leverages,
    ) -> (r: Result<(), DispatchError>)
        requires
            old(self).wf(),
        ensures
            final(self).wf(),
            r is Ok <==> old(self).spec_base().spec_is_owner(pool_id, who),
            r is Err ==> r == Err::<(), DispatchError>(DispatchError::MarginLiquidityPools(MarginPoolsError::NoPermission))
                && *final(self) == *old(self),
            r is Ok ==> final(self).stored_pool_pair_option(pool_id, pair) == (MarginPoolTradingPairOption {
                enabled_trades: enabled,
                ..old(self).stored_pool_pair_option(pool_id, pair)
            }) && old(self).same_except_pool_pair(&*final(self), pool_id, pair),
    {
        if !self.base.is_owner(pool_id, who) {
            return Err(pools_err(MarginPoolsError::NoPermission));
        }
        let mut o = self.stored_pool_pair(pool_id, pair);
        o.enabled_trades = enabled;
        self.store_pool_pair(pool_id, pair, o);
        Ok(())
    }

    /// Sets the swap rate of `pair`. May only be called from the update origin; each side must
    /// be within the max swap.
    pub fn set_swap_rate(&mut self, origin: AccountId, pair: TradingPair, rate: SwapRate) -> (r: Result<
        (),
        DispatchError,
    >)
        requires
            old(self).wf(),
        ensures
            final(self).wf(),
            origin != old(self).spec_update_origin() ==> r == Err::<(), DispatchError>(DispatchError::BadOrigin),
            origin == old(self).spec_update_origin() && (spec_saturating_abs(rate.long.inner) > old(
                self,
            ).spec_max_swap().inner || spec_saturating_abs(rate.short.inner) > old(self).spec_max_swap().inner)
                ==> r == Err::<(), DispatchError>(
                DispatchError::MarginLiquidityPools(MarginPoolsError::SwapRateTooHigh),
            ),
            r is Ok <==> origin == old(self).spec_update_origin() && spec_saturating_abs(rate.long.inner)
                <= old(self).spec_max_swap().inner && spec_saturating_abs(rate.short.inner) <= old(
                self,
            ).spec_max_swap().inner,
            r is Err ==> *final(self) == *old(self),
            r is Ok ==> final(self).pair_option(pair) == (MarginTradingPairOption {
                swap_rate: rate,
                ..old(self).pair_option(pair)
            }) && old(self).same_except_pair(&*final(self), pair),
    {
        if origin != self.update_origin {
            return Err(DispatchError::BadOrigin);
        }
        if rate.long.saturating_abs().inner > self.max_swap.inner {
            return Err(pools_err(MarginPoolsError::SwapRateTooHigh));
        }
        if rate.short.saturating_abs().inner > self.max_swap.inner {
            return Err(pools_err(MarginPoolsError::SwapRateTooHigh));
        }
        let mut o = self.trading_pair_options(pair);
        o.swap_rate = rate;
        self.store_pair(pair, o);
        Ok(())
    }

    /// Sets the additional swap rate of a pool owned by `who`.
    pub fn set_additional_swap(&mut self, who: AccountId, pool_id: LiquidityPoolId, rate: Fixed) -> (r: Result<
        (),
        DispatchError,
    >)
        requires
            old(self).wf(),
        ensures
            final(self).wf(),
            r is Ok <==> old(self).spec_base().spec_is_owner(pool_id, who),
            r is Err ==> r == Err::<(), DispatchError>(DispatchError::MarginLiquidityPools(MarginPoolsError::NoPermission))
                && *final(self) == *old(self),
            r is Ok ==> final(self).pool_option(pool_id) == (MarginPoolOption {
                additional_swap_rate: rate,
                ..old(self).pool_option(pool_id)
            }),
            r is Ok ==> forall|p: LiquidityPoolId| p != pool_id ==> #[trigger] final(self).pool_option(p)
                == old(self).pool_option(p),
            r is Ok ==> old(self).same_except_pool_options(&*final(self)),
            r is Ok ==> forall|p: LiquidityPoolId, q: TradingPair| #[trigger] final(self).stored_pool_pair_option(p, q)
                == old(self).stored_pool_pair_option(p, q),
    {
        if !self.base.is_owner(pool_id, who) {
            return Err(pools_err(MarginPoolsError::NoPermission));
        }
        let mut o = self.pool_options(pool_id);
        o.additional_swap_rate = rate;
        self.pool_options.insert(pool_id, o);
        Ok(())
    }

    /// Sets the max spread of `pair`. May only be called from the update origin.
    pub fn set_max_spread(&mut self, origin: AccountId, pair: TradingPair, max_spread: Price) -> (r: Result<
        (),
        DispatchError,
    >)
        requires
            old(self).wf(),
        ensures
            final(self).wf(),
            r is Ok <==> origin == old(self).spec_update_origin(),
            r is Err ==> r == Err::<(), DispatchError>(DispatchError::BadOrigin) && *final(self) == *old(self),
            r is Ok ==> final(self).pair_option(pair) == (MarginTradingPairOption {
                max_spread: Some(max_spread),
                ..old(self).pair_option(pair)
            }) && old(self).same_except_pair(&*final(self), pair),
    {
        if origin != self.update_origin {
            return Err(DispatchError::BadOrigin);
        }
        let mut o = self.trading_pair_options(pair);
        o.max_spread = Some(max_spread);
        self.store_pair(pair, o);
        Ok(())
    }

    /// Sets when swap rates of `pair` are accumulated. May only be called from the update
    /// origin; the frequency must be at least one minute.
    pub fn set_accumulate(&mut self, origin: AccountId, pair: TradingPair, frequency: Moment, offset: Moment) -> (r:
        Result<(), DispatchError>)
        requires
            old(self).wf(),
        ensures
            final(self).wf(),
            origin != old(self).spec_update_origin() ==> r == Err::<(), DispatchError>(DispatchError::BadOrigin),
            origin == old(self).spec_update_origin() && frequency < ONE_MINUTE ==> r == Err::<(), DispatchError>(
                DispatchError::MarginLiquidityPools(MarginPoolsError::FrequencyTooLow),
            ),
            r is Ok <==> origin == old(self).spec_update_origin() && frequency >= ONE_MINUTE,
            r is Err ==> *final(self) == *old(self),
            r is Ok ==> final(self).pair_option(pair) == (MarginTradingPairOption {
                accumulate_config: Some(AccumulateConfig { frequency, offset }),
                ..old(self).pair_option(pair)
            }) && old(self).same_except_pair(&*final(self), pair),
    {
        if origin != self.update_origin {
            return Err(DispatchError::BadOrigin);
        }
        if frequency < ONE_MINUTE {
            return Err(pools_err(MarginPoolsError::FrequencyTooLow));
        }
        let mut o = self.trading_pair_options(pair);
        o.accumulate_config = Some(AccumulateConfig { frequency, offset });
        self.store_pair(pair, o);
        Ok(())
    }

    /// Enables or disables `pair` in the protocol. May only be called from the update origin.
    pub fn set_trading_pair_enabled(&mut self, origin: AccountId, pair: TradingPair, enabled: bool) -> (r:
        Result<(), DispatchError>)
        requires
            old(self).wf(),
        ensures
            final(self).wf(),
            r is Ok <==> origin == old(self).spec_update_origin(),
            r is Err ==> r == Err::<(), DispatchError>(DispatchError::BadOrigin) && *final(self) == *old(self),
            r is Ok ==> final(self).pair_option(pair) == (MarginTradingPairOption {
                enabled,
                ..old(self).pair_option(pair)
            }) && old(self).same_except_pair(&*final(self), pair),
    {
        if origin != self.update_origin {
            return Err(DispatchError::BadOrigin);
        }
        let mut o = self.trading_pair_options(pair);
        o.enabled = enabled;
        self.store_pair(pair, o);
        Ok(())
    }

    /// Enables `pair` in the protocol. May only be called from the update origin.
    pub fn enable_trading_pair(&mut self, origin: AccountId, pair: TradingPair) -> (r: Result<(), DispatchError>)
        requires
            old(self).wf(),
        ensures
            final(self).wf(),
            r is Ok <==> origin == old(self).spec_update_origin(),
            r is Err ==> r == Err::<(), DispatchError>(DispatchError::BadOrigin) && *final(self) == *old(self),
            r is Ok ==> final(self).pair_option(pair) == (MarginTradingPairOption {
                enabled: true,
                ..old(self).pair_option(pair)
            }) && old(self).same_except_pair(&*final(self), pair),
    {
        self.set_trading_pair_enabled(origin, pair, true)
    }

    /// Disables `pair` in the protocol. May only be called from the update origin.
    pub fn disable_trading_pair(&mut self, origin: AccountId, pair: TradingPair) -> (r: Result<(), DispatchError>)
        requires
            old(self).wf(),
        ensures
            final(self).wf(),
            r is Ok <==> origin == old(self).spec_update_origin(),
            r is Err ==> r == Err::<(), DispatchError>(DispatchError::BadOrigin) && *final(self) == *old(self),
            r is Ok ==> final(self).pair_option(pair) == (MarginTradingPairOption {
                enabled: false,
                ..old(self).pair_option(pair)
            }) && old(self).same_except_pair(&*final(self), pair),
    {
        self.set_trading_pair_enabled(origin, pair, false)
    }

    /// Enables `pair` in a pool owned by `who`. The pair must be enabled in the protocol, and
    /// `manager_check` is the margin protocol's answer whether the pool can take it.
    pub fn liquidity_pool_enable_trading_pair(
        &mut self,
        who: AccountId,
        pool_id: LiquidityPoolId,
        pair: TradingPair,
        manager_check: Result<(), DispatchError>,
    ) -> (r: Result<(), DispatchError>)
        requires
            old(self).wf(),
        ensures
            final(self).wf(),
            !old(self).spec_base().spec_is_owner(pool_id, who) ==> r == Err::<(), DispatchError>(
                DispatchError::MarginLiquidityPools(MarginPoolsError::NoPermission),
            ),
            old(self).spec_base().spec_is_owner(pool_id, who) && !old(self).pair_option(pair).enabled ==> r
                == Err::<(), DispatchError>(
                DispatchError::MarginLiquidityPools(MarginPoolsError::TradingPairNotEnabled),
            ),
            old(self).spec_base().spec_is_owner(pool_id, who) && old(self).pair_option(pair).enabled
                && manager_check is Err ==> r == manager_check,
            r is Ok <==> old(self).spec_base().spec_is_owner(pool_id, who) && old(self).pair_option(pair).enabled
                && manager_check is Ok,
            r is Err ==> *final(self) == *old(self),
            r is Ok ==> final(self).stored_pool_pair_option(pool_id, pair) == (MarginPoolTradingPairOption {
                enabled: true,
                ..old(self).stored_pool_pair_option(pool_id, pair)
            }) && old(self).same_except_pool_pair(&*final(self), pool_id, pair),
    {
        if !self.base.is_owner(pool_id, who) {
            return Err(pools_err(MarginPoolsError::NoPermission));
        }
        if !self.is_trading_pair_enabled(pair) {
            return Err(pools_err(MarginPoolsError::TradingPairNotEnabled));
        }
        manager_check?;
        let mut o = self.stored_pool_pair(pool_id, pair);
        o.enabled = true;
        self.store_pool_pair(pool_id, pair, o);
        Ok(())
    }

    /// Disables `pair` in a pool owned by `who`.
    pub fn liquidity_pool_disable_trading_pair(
        &mut self,
        who: AccountId,
        pool_id: LiquidityPoolId,
        pair: TradingPair,
    ) -> (r: Result<(), DispatchError>)
        requires
            old(self).wf(),
        ensures
            final(self).wf(),
            r is Ok <==> old(self).spec_base().spec_is_owner(pool_id, who),
            r is Err ==> r == Err::<(), DispatchError>(DispatchError::MarginLiquidityPools(MarginPoolsError::NoPermission))
                && *final(self) == *old(self),
            r is Ok ==> final(self).stored_pool_pair_option(pool_id, pair) == (MarginPoolTradingPairOption {
                enabled: false,
                ..old(self).stored_pool_pair_option(pool_id, pair)
            }) && old(self).same_except_pool_pair(&*final(self), pool_id, pair),
    {
        if !self.base.is_owner(pool_id, who) {
            return Err(pools_err(MarginPoolsError::NoPermission));
        }
        let mut o = self.stored_pool_pair(pool_id, pair);
        o.enabled = false;
        self.store_pool_pair(pool_id, pair, o);
        Ok(())
    }

    /// Sets the protocol's minimum leveraged amount. May only be called from the update origin.
    pub fn set_default_min_leveraged_amount(&mut self, origin: AccountId, amount: Balance) -> (r: Result<
        (),
        DispatchError,
    >)
        requires
            old(self).wf(),
        ensures
            final(self).wf(),
            r is Ok <==> origin == old(self).spec_update_origin(),
            r is Err ==> r == Err::<(), DispatchError>(DispatchError::BadOrigin) && *final(self) == *old(self),
            r is Ok ==> final(self).spec_default_min_leveraged_amount() == amount && final(self).pair_entries()
                == old(self).pair_entries(),
            r is Ok ==> forall|q: TradingPair| #[trigger] final(self).pair_option(q) == old(self).pair_option(q),
            r is Ok ==> forall|p: LiquidityPoolId| #[trigger] final(self).pool_option(p) == old(self).pool_option(p),
            r is Ok ==> forall|p: LiquidityPoolId, q: TradingPair| #[trigger] final(self).stored_pool_pair_option(p, q)
                == old(self).stored_pool_pair_option(p, q),
            r is Ok ==> forall|p: LiquidityPoolId, q: TradingPair| #[trigger] final(self).accumulated(p, q)
                == old(self).accumulated(p, q),
            final(self).spec_base() == old(self).spec_base(),
            final(self).spec_last_accumulate_time() == old(self).spec_last_accumulate_time(),
            final(self).spec_max_swap() == old(self).spec_max_swap(),
            final(self).spec_update_origin() == old(self).spec_update_origin(),
    {
        if origin != self.update_origin {
            return Err(DispatchError::BadOrigin);
        }
        self.default_min_leveraged_amount = amount;
        Ok(())
    }

    /// Sets the minimum leveraged amount of a pool owned by `who`.
    pub fn set_min_leveraged_amount(&mut self, who: AccountId, pool_id: LiquidityPoolId, amount: Balance) -> (r:
        Result<(), DispatchError>)
        requires
            old(self).wf(),
        ensures
            final(self).wf(),
            r is Ok <==> old(self).spec_base().spec_is_owner(pool_id, who),
            r is Err ==> r == Err::<(), DispatchError>(DispatchError::MarginLiquidityPools(MarginPoolsError::NoPermission))
                && *final(self) == *old(self),
            r is Ok ==> final(self).pool_option(pool_id) == (MarginPoolOption {
                min_leveraged_amount: amount,
                ..old(self).pool_option(pool_id)
            }),
            r is Ok ==> forall|p: LiquidityPoolId| p != pool_id ==> #[trigger] final(self).pool_option(p)
                == old(self).pool_option(p),
            r is Ok ==> old(self).same_except_pool_options(&*final(self)),
            r is Ok ==> forall|p: LiquidityPoolId, q: TradingPair| #[trigger] final(self).stored_pool_pair_option(p, q)
                == old(self).stored_pool_pair_option(p, q),
    {
        if !self.base.is_owner(pool_id, who) {
            return Err(pools_err(MarginPoolsError::NoPermission));
        }
        let mut o = self.pool_options(pool_id);
        o.min_leveraged_amount = amount;
        self.pool_options.insert(pool_id, o);
        Ok(())
    }
    /// `other` is `self` after accumulating the swap rates of `pair` once in every pool.
    pub open spec fn accumulated_once(&self, other: &MarginLiquidityPools, pair: TradingPair) -> bool {
        &&& forall|p: LiquidityPoolId, q: TradingPair| #[trigger] other.accumulated(p, q) == if q == pair
            && self.spec_base().pool(p) is Some {
            accumulated_after(
                self.accumulated(p, q),
                self.spec_swap_rate(p, pair, true),
                self.spec_swap_rate(p, pair, false),
            )
        } else {
            self.accumulated(p, q)
        }
        &&& other.spec_base() == self.spec_base()
        &&& forall|q: TradingPair| #[trigger] other.pair_option(q) == self.pair_option(q)
        &&& other.pair_entries() == self.pair_entries()
        &&& forall|p: LiquidityPoolId| #[trigger] other.pool_option(p) == self.pool_option(p)
        &&& forall|p: LiquidityPoolId, q: TradingPair| #[trigger] other.stored_pool_pair_option(p, q)
            == self.stored_pool_pair_option(p, q)
        &&& other.spec_default_min_leveraged_amount() == self.spec_default_min_leveraged_amount()
        &&& other.spec_max_swap() == self.spec_max_swap()
        &&& other.spec_update_origin() == self.spec_update_origin()
    }

    /// Adds the current swap rates of `pair` to its accumulated swap rates in every pool.
    fn accumulate_rates(&mut self, pair: TradingPair)
        requires
            old(self).wf(),
        ensures
            final(self).wf(),
            old(self).accumulated_once(&*final(self), pair),
            final(self).spec_last_accumulate_time() == old(self).spec_last_accumulate_time(),
    {
        let ghost s0 = *self;
        let ids = self.base.all();
        proof {
            self.base.lemma_pool_ids();
        }
        let n = ids.len();
        let mut i: usize = 0;
        while i < n
            invariant
                self.wf(),
                n == ids@.len(),
                i <= n,
                ids@ == s0.spec_base().pool_ids(),
                forall|a: int, b: int| 0 <= a < n && 0 <= b < n && a != b ==> ids@[a] != ids@[b],
                self.base == s0.base,
                self.trading_pair_options == s0.trading_pair_options,
                self.pool_options == s0.pool_options,
                self.pool_trading_pair_options == s0.pool_trading_pair_options,
                self.default_min_leveraged_amount == s0.default_min_leveraged_amount,
                self.last_accumulate_time == s0.last_accumulate_time,
                self.max_swap == s0.max_swap,
                self.update_origin == s0.update_origin,
                forall|p: LiquidityPoolId, q: TradingPair| #[trigger] self.accumulated(p, q) == if q == pair
                    && ids@.subrange(0, i as int).contains(p) {
                    accumulated_after(
                        s0.accumulated(p, q),
                        s0.spec_swap_rate(p, pair, true),
                        s0.spec_swap_rate(p, pair, false),
                    )
                } else {
                    s0.accumulated(p, q)
                },
            decreases n - i,
        {
            let pool_id = ids[i];
            let long_rate = self.swap_rate(pool_id, pair, true);
            let short_rate = self.swap_rate(pool_id, pair, false);
            let mut acc = self.accumulated_swap_rates(pool_id, pair);
            proof {
                if ids@.subrange(0, i as int).contains(pool_id) {
                    let j = choose|j: int| 0 <= j < i && #[trigger] ids@.subrange(0, i as int)[j] == pool_id;
                    assert(ids@[j] == ids@[i as int]);
                }
            }
            acc.long = acc.long.saturating_add(&long_rate);
            acc.short = acc.short.saturating_add(&short_rate);
            let ghost prev = *self;
            self.accumulated_swap_rates.insert(PoolPair { pool: pool_id, pair }, acc);
            proof {
                assert(self.accumulated(pool_id, pair) == acc);
                assert forall|p: LiquidityPoolId, q: TradingPair| !(p == pool_id && q == pair) implies #[trigger] self.accumulated(
                    p,
                    q,
                ) == prev.accumulated(p, q) by {
                    assert(PoolPair { pool: p, pair: q } != PoolPair { pool: pool_id, pair });
                }
                assert forall|p: LiquidityPoolId, q: TradingPair| #[trigger] self.accumulated(p, q) == if q == pair
                    && ids@.subrange(0, i + 1).contains(p) {
                    accumulated_after(
                        s0.accumulated(p, q),
                        s0.spec_swap_rate(p, pair, true),
                        s0.spec_swap_rate(p, pair, false),
                    )
                } else {
                    s0.accumulated(p, q)
                } by {
                    if p == pool_id && q == pair {
                        assert(ids@.subrange(0, i + 1)[i as int] == pool_id);
                        assert(ids@.subrange(0, i + 1).contains(p));
                    } else {
                        assert(self.accumulated(p, q) == prev.accumulated(p, q));
                    }
                    if ids@.subrange(0, i + 1).contains(p) && p != pool_id {
                        let j = choose|j: int| 0 <= j < i + 1 && #[trigger] ids@.subrange(0, i + 1)[j] == p;
                        assert(ids@.subrange(0, i as int)[j] == p);
                    }
                    if ids@.subrange(0, i as int).contains(p) {
                        let j = choose|j: int| 0 <= j < i && #[trigger] ids@.subrange(0, i as int)[j] == p;
                        assert(ids@.subrange(0, i + 1)[j] == p);
                    }
                    assert(ids@.subrange(0, i + 1)[i as int] == pool_id);
                }
            }
            i = i + 1;
        }
        proof {
            assert(ids@.subrange(0, n as int) =~= ids@);
        }
    }

    /// Accumulates swap rates at `now` (seconds): the first stored pair whose accumulation is
    /// due, unless one was already accumulated in the same minute.
    pub fn on_initialize(&mut self, now: u64)
        requires
            old(self).wf(),
        ensures
            final(self).wf(),
            match old(self).pair_to_accumulate(now) {
                Some(pair) => {
                    &&& old(self).accumulated_once(&*final(self), pair)
                    &&& final(self).spec_last_accumulate_time() == truncated_to_minute(now)
                },
                None => *final(self) == *old(self),
            },
    {
        let now_mins = now / ONE_MINUTE;
        let now_secs = now_mins * ONE_MINUTE;
        if self.last_accumulate_time == now_secs {
            return;
        }
        let n = self.trading_pair_options.len();
        let mut i: usize = 0;
        let mut found = false;
        while i < n && !found
            invariant
                self.trading_pair_options.wf(),
                n == self.pair_entries().len(),
                i <= n,
                found ==> i < n && accumulate_due(self.pair_entries()[i as int].1.accumulate_config, now),
                forall|j: int| 0 <= j < i ==> !accumulate_due(#[trigger] self.pair_entries()[j].1.accumulate_config, now),
            decreases n - i + (if found { 0int } else { 1int }),
        {
            let o = *self.trading_pair_options.value_at(i);
            if is_accumulate_due(o.accumulate_config, now) {
                found = true;
            } else {
                i = i + 1;
            }
        }
        if !found {
            return;
        }
        let pair = self.trading_pair_options.key_at(i);
        proof {
            let s = self.pair_entries();
            assert(0 <= i < s.len() && accumulate_due(s[i as int].1.accumulate_config, now) && (forall|j: int|
                0 <= j < i ==> !accumulate_due(#[trigger] s[j].1.accumulate_config, now)));
            let k = choose|k: int|
                0 <= k < s.len() && accumulate_due(s[k].1.accumulate_config, now) && (forall|j: int|
                    0 <= j < k ==> !accumulate_due(#[trigger] s[j].1.accumulate_config, now));
            if k < i {
                assert(!accumulate_due(s[k].1.accumulate_config, now));
            }
            if k > i {
                assert(!accumulate_due(s[i as int].1.accumulate_config, now));
            }
            assert(k == i);
        }
        self.last_accumulate_time = now_secs;
        self.accumulate_rates(pair);
    }

    /// Removes the options of all pairs in `pool_id`: the pool has been disabled.
    pub fn on_disable(&mut self, pool_id: LiquidityPoolId)
        requires
            old(self).wf(),
        ensures
            final(self).wf(),
            forall|q: TradingPair| #[trigger] final(self).stored_pool_pair_option(pool_id, q)
                == default_pool_pair_option(),
            old(self).same_except_pool_options(&*final(self)),
            forall|p: LiquidityPoolId| #[trigger] final(self).pool_option(p) == old(self).pool_option(p),
            forall|p: LiquidityPoolId, q: TradingPair|
                p != pool_id ==> #[trigger] final(self).stored_pool_pair_option(p, q)
                    == old(self).stored_pool_pair_option(p, q),
    {
        let ks = pool_keys(&self.pool_trading_pair_options, pool_id);
        self.pool_trading_pair_options.remove_keys(&ks);
        proof {
            assert forall|p: LiquidityPoolId, q: TradingPair|
                p != pool_id implies #[trigger] self.stored_pool_pair_option(p, q) == old(self).stored_pool_pair_option(p, q) by {
                if ks@.contains(PoolPair { pool: p, pair: q }) {
                    let m = choose|m: int| 0 <= m < ks@.len() && ks@[m] == PoolPair { pool: p, pair: q };
                    assert(ks@[m].pool == pool_id);
                }
            }
        }
    }

    /// Removes the options of `pool_id`, of all pairs in it and its accumulated swap rates:
    /// the pool has been removed.
    pub fn on_remove(&mut self, pool_id: LiquidityPoolId)
        requires
            old(self).wf(),
        ensures
            final(self).wf(),
            forall|q: TradingPair| #[trigger] final(self).stored_pool_pair_option(pool_id, q)
                == default_pool_pair_option(),
            forall|q: TradingPair| #[trigger] final(self).accumulated(pool_id, q) == zero_swap_rate(),
            final(self).pool_option(pool_id) == default_pool_option(),
            forall|p: LiquidityPoolId| p != pool_id ==> #[trigger] final(self).pool_option(p) == old(self).pool_option(p),
            forall|p: LiquidityPoolId, q: TradingPair|
                p != pool_id ==> #[trigger] final(self).stored_pool_pair_option(p, q)
                    == old(self).stored_pool_pair_option(p, q),
            forall|p: LiquidityPoolId, q: TradingPair|
                p != pool_id ==> #[trigger] final(self).accumulated(p, q) == old(self).accumulated(p, q),
            final(self).spec_base() == old(self).spec_base(),
            forall|q: TradingPair| #[trigger] final(self).pair_option(q) == old(self).pair_option(q),
            final(self).pair_entries() == old(self).pair_entries(),
            final(self).spec_default_min_leveraged_amount() == old(self).spec_default_min_leveraged_amount(),
            final(self).spec_last_accumulate_time() == old(self).spec_last_accumulate_time(),
            final(self).spec_max_swap() == old(self).spec_max_swap(),
            final(self).spec_update_origin() == old(self).spec_update_origin(),
    {
        self.on_disable(pool_id);
        let ghost mid = *self;
        let ks = pool_keys(&self.accumulated_swap_rates, pool_id);
        self.accumulated_swap_rates.remove_keys(&ks);
        self.pool_options.remove(&pool_id);
        proof {
            assert forall|p: LiquidityPoolId, q: TradingPair| #[trigger] self.stored_pool_pair_option(p, q)
                == mid.stored_pool_pair_option(p, q) by {}
            assert forall|p: LiquidityPoolId, q: TradingPair| #[trigger] old(self).accumulated(p, q)
                == mid.accumulated(p, q) by {}
            assert forall|q: TradingPair| #[trigger] self.pair_option(q) == mid.pair_option(q) by {}
            assert forall|p: LiquidityPoolId| p != pool_id implies #[trigger] self.pool_option(p) == old(self).pool_option(p) by {
                assert(mid.pool_option(p) == old(self).pool_option(p));
            }
            assert forall|p: LiquidityPoolId, q: TradingPair|
                p != pool_id implies #[trigger] self.accumulated(p, q) == old(self).accumulated(p, q) by {
                if ks@.contains(PoolPair { pool: p, pair: q }) {
                    let m = choose|m: int| 0 <= m < ks@.len() && ks@[m] == PoolPair { pool: p, pair: q };
                    assert(ks@[m].pool == pool_id);
                }
            }
        }
    }
}

/// Swap rates are accumulated at most once a minute: once accumulated at some time, nothing
/// is accumulated again at a time of the same minute.
pub proof fn lemma_accumulate_once_per_minute(s: MarginLiquidityPools, now: u64, later: u64)
    requires
        s.spec_last_accumulate_time() == truncated_to_minute(now),
        now / 60 == later / 60,
    ensures
        s.pair_to_accumulate(later) is None,
{
}

} // verus!
