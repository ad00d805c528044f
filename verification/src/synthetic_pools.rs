//! Liquidity pools for the synthetic protocol: spreads, additional collateral ratios and
//! enabled currencies of each pool, on top of the base liquidity pools.
use vstd::prelude::*;
use crate::base_pools::BaseLiquidityPools;
use crate::error::{DispatchError, SyntheticPoolsError};
use crate::fixed::{Permill, Price};
use crate::primitives::{AccountId, CurrencyId, LiquidityPoolId};
use crate::synthetic_tokens::PoolCurrency;
use crate::table::Table;

verus! {

/// Options of a currency in a pool.
#[derive(Clone, Copy, Debug, PartialEq, Eq, Structural)]
pub struct SyntheticPoolCurrencyOption {
    /// Bid spread; `None` until the owner sets it.
    pub bid_spread: Option<Price>,
    /// Ask spread; `None` until the owner sets it.
    pub ask_spread: Option<Price>,
    /// Additional collateral ratio; the minimum applies when not set.
    pub additional_collateral_ratio: Option<Permill>,
    /// Whether the currency may be minted in the pool.
    pub synthetic_enabled: bool,
}

impl SyntheticPoolCurrencyOption {
    pub fn default() -> (r: SyntheticPoolCurrencyOption)
        ensures
            r == spec_default_option(),
    {
        SyntheticPoolCurrencyOption {
            bid_spread: None,
            ask_spread: None,
            additional_collateral_ratio: None,
            synthetic_enabled: false,
        }
    }
}

pub open spec fn spec_default_option() -> SyntheticPoolCurrencyOption {
    SyntheticPoolCurrencyOption {
        bid_spread: None,
        ask_spread: None,
        additional_collateral_ratio: None,
        synthetic_enabled: false,
    }
}

/// A spread capped by the maximum spread, if there is one.
pub open spec fn spec_capped(spread: Option<Price>, max: Option<Price>) -> Option<Price> {
    match (spread, max) {
        (Some(s), Some(m)) => if s.inner <= m.inner {
            Some(s)
        } else {
            Some(m)
        },
        _ => spread,
    }
}

fn capped(spread: Option<Price>, max: Option<Price>) -> (r: Option<Price>)
    ensures
        r == spec_capped(spread, max),
{
    match (spread, max) {
        (Some(s), Some(m)) => if s.inner <= m.inner {
            Some(s)
        } else {
            Some(m)
        },
        _ => spread,
    }
}

/// The synthetic liquidity pools module.
pub struct SyntheticLiquidityPools {
    pub(crate) base: BaseLiquidityPools,
    pub(crate) options: Table<PoolCurrency, SyntheticPoolCurrencyOption>,
    pub(crate) min_additional_collateral_ratio: Permill,
    pub(crate) max_spread: Table<CurrencyId, Price>,
    pub(crate) update_origin: AccountId,
}

fn pools_err(e: SyntheticPoolsError) -> (r: DispatchError)
    ensures
        r == DispatchError::SyntheticLiquidityPools(e),
{
    DispatchError::SyntheticLiquidityPools(e)
}

impl SyntheticLiquidityPools {
    pub closed spec fn wf(&self) -> bool {
        self.base.wf() && self.options.wf() && self.max_spread.wf()
    }

    /// The underlying base pools.
    pub closed spec fn spec_base(&self) -> BaseLiquidityPools {
        self.base
    }

    /// Two states with the same options, maximum spreads and settings agree on all of them.
    pub(crate) proof fn lemma_same_options(a: &SyntheticLiquidityPools, b: &SyntheticLiquidityPools)
        requires
            a.options == b.options,
            a.max_spread == b.max_spread,
            a.min_additional_collateral_ratio == b.min_additional_collateral_ratio,
            a.update_origin == b.update_origin,
        ensures
            forall|p: LiquidityPoolId, c: CurrencyId| #[trigger] a.stored_option(p, c) == b.stored_option(p, c),
            forall|c: CurrencyId| #[trigger] a.spec_max_spread(c) == b.spec_max_spread(c),
            a.spec_min_ratio() == b.spec_min_ratio(),
            a.spec_update_origin() == b.spec_update_origin(),
    {
    }

    pub(crate) proof fn lemma_parts(&self)
        ensures
            self.spec_base() == self.base,
            self.wf() <==> (self.base.wf() && self.options.wf() && self.max_spread.wf()),
    {
    }

    /// The stored options of `currency` in `pool`, before capping.
    pub closed spec fn stored_option(&self, pool: LiquidityPoolId, currency: CurrencyId) -> SyntheticPoolCurrencyOption {
        match self.options.spec_get(PoolCurrency { pool, currency }) {
            Some(o) => o,
            None => spec_default_option(),
        }
    }

    pub closed spec fn spec_min_ratio(&self) -> Permill {
        self.min_additional_collateral_ratio
    }

    pub closed spec fn spec_max_spread(&self, currency: CurrencyId) -> Option<Price> {
        self.max_spread.spec_get(currency)
    }

    pub closed spec fn spec_update_origin(&self) -> AccountId {
        self.update_origin
    }

    /// The options of `currency` in `pool`, with spreads capped by the maximum spread.
    pub open spec fn option(&self, pool: LiquidityPoolId, currency: CurrencyId) -> SyntheticPoolCurrencyOption {
        let o = self.stored_option(pool, currency);
        let m = self.spec_max_spread(currency);
        SyntheticPoolCurrencyOption {
            bid_spread: spec_capped(o.bid_spread, m),
            ask_spread: spec_capped(o.ask_spread, m),
            ..o
        }
    }

    /// The additional collateral ratio of `currency` in `pool`: the pool's own ratio but at
    /// least the minimum.
    pub open spec fn spec_additional_collateral_ratio(&self, pool: LiquidityPoolId, currency: CurrencyId) -> Permill {
        let min = self.spec_min_ratio();
        match self.stored_option(pool, currency).additional_collateral_ratio {
            Some(r) => if r.spec_parts() >= min.spec_parts() {
                r
            } else {
                min
            },
            None => min,
        }
    }

    /// Everything but the options of `(pool, currency)` and the base pools is the same.
    pub open spec fn same_except_option(
        &self,
        other: &SyntheticLiquidityPools,
        pool: LiquidityPoolId,
        currency: CurrencyId,
    ) -> bool {
        &&& other.spec_base() == self.spec_base()
        &&& other.spec_min_ratio() == self.spec_min_ratio()
        &&& other.spec_update_origin() == self.spec_update_origin()
        &&& forall|c: CurrencyId| #[trigger] other.spec_max_spread(c) == self.spec_max_spread(c)
        &&& forall|p: LiquidityPoolId, c: CurrencyId|
            !(p == pool && c == currency) ==> #[trigger] other.stored_option(p, c)
                == self.stored_option(p, c)
    }

    pub fn new(
        base: BaseLiquidityPools,
        min_additional_collateral_ratio: Permill,
        update_origin: AccountId,
    ) -> (r: SyntheticLiquidityPools)
        requires
            base.wf(),
        ensures
            r.wf(),
            r.spec_base() == base,
            r.spec_min_ratio() == min_additional_collateral_ratio,
            r.spec_update_origin() == update_origin,
            forall|p: LiquidityPoolId, c: CurrencyId| #[trigger] r.stored_option(p, c)
                == spec_default_option(),
            forall|c: CurrencyId| #[trigger] r.spec_max_spread(c) is None,
    {
        SyntheticLiquidityPools {
            base,
            options: Table::new(),
            min_additional_collateral_ratio,
            max_spread: Table::new(),
            update_origin,
        }
    }

    /// The underlying base pools.
    pub fn base(&self) -> (r: &BaseLiquidityPools)
        ensures
            *r == self.spec_base(),
    {
        &self.base
    }

    /// The underlying base pools, for changes.
    pub fn base_mut(&mut self) -> (r: &mut BaseLiquidityPools)
        ensures
            *r == old(self).spec_base(),
            final(self).spec_base() == *final(r),
            forall|p: LiquidityPoolId, c: CurrencyId| #[trigger] final(self).stored_option(p, c)
                == old(self).stored_option(p, c),
            forall|c: CurrencyId| #[trigger] final(self).spec_max_spread(c) == old(self).spec_max_spread(c),
            final(self).spec_min_ratio() == old(self).spec_min_ratio(),
            final(self).spec_update_origin() == old(self).spec_update_origin(),
    {
        &mut self.base
    }

    pub fn min_additional_collateral_ratio(&self) -> (r: Permill)
        ensures
            r == self.spec_min_ratio(),
    {
        self.min_additional_collateral_ratio
    }

    pub fn max_spread(&self, currency_id: CurrencyId) -> (r: Option<Price>)
        requires
            self.wf(),
        ensures
            r == self.spec_max_spread(currency_id),
    {
        self.max_spread.get_copy(&currency_id)
    }

    fn stored(&self, pool_id: LiquidityPoolId, currency_id: CurrencyId) -> (r: SyntheticPoolCurrencyOption)
        requires
            self.wf(),
        ensures
            r == self.stored_option(pool_id, currency_id),
    {
        match self.options.get_copy(&PoolCurrency { pool: pool_id, currency: currency_id }) {
            Some(o) => o,
            None => SyntheticPoolCurrencyOption::default(),
        }
    }

    /// The options of `currency_id` in `pool_id`, with spreads capped by the maximum spread.
    pub fn pool_currency_options(&self, pool_id: LiquidityPoolId, currency_id: CurrencyId) -> (r:
        SyntheticPoolCurrencyOption)
        requires
            self.wf(),
        ensures
            r == self.option(pool_id, currency_id),
    {
        let mut option = self.stored(pool_id, currency_id);
        let m = self.max_spread(currency_id);
        option.bid_spread = capped(option.bid_spread, m);
        option.ask_spread = capped(option.ask_spread, m);
        option
    }

    /// Bid spread of `currency_id` in `pool_id`, or `None` if not set by the owner.
    pub fn bid_spread(&self, pool_id: LiquidityPoolId, currency_id: CurrencyId) -> (r: Option<Price>)
        requires
            self.wf(),
        ensures
            r == self.option(pool_id, currency_id).bid_spread,
    {
        self.pool_currency_options(pool_id, currency_id).bid_spread
    }

    /// Ask spread of `currency_id` in `pool_id`, or `None` if not set by the owner.
    pub fn ask_spread(&self, pool_id: LiquidityPoolId, currency_id: CurrencyId) -> (r: Option<Price>)
        requires
            self.wf(),
        ensures
            r == self.option(pool_id, currency_id).ask_spread,
    {
        self.pool_currency_options(pool_id, currency_id).ask_spread
    }

    /// Additional collateral ratio of `currency_id` in `pool_id`, at least the minimum.
    pub fn additional_collateral_ratio(&self, pool_id: LiquidityPoolId, currency_id: CurrencyId) -> (r:
        Permill)
        requires
            self.wf(),
        ensures
            r == self.spec_additional_collateral_ratio(pool_id, currency_id),
    {
        let min_ratio = self.min_additional_collateral_ratio;
        match self.stored(pool_id, currency_id).additional_collateral_ratio {
            Some(ratio) => ratio.max(&min_ratio),
            None => min_ratio,
        }
    }

    /// Whether `currency_id` may be minted in `pool_id`.
    pub fn can_mint(&self, pool_id: LiquidityPoolId, currency_id: CurrencyId) -> (r: bool)
        requires
            self.wf(),
        ensures
            r == self.option(pool_id, currency_id).synthetic_enabled,
    {
        self.pool_currency_options(pool_id, currency_id).synthetic_enabled
    }

    fn store(&mut self, pool_id: LiquidityPoolId, currency_id: CurrencyId, o: SyntheticPoolCurrencyOption)
        requires
            old(self).wf(),
        ensures
            final(self).wf(),
            final(self).stored_option(pool_id, currency_id) == o,
            old(self).same_except_option(&*final(self), pool_id, currency_id),
    {
        self.options.insert(PoolCurrency { pool: pool_id, currency: currency_id }, o);
    }

    /// Sets the bid and ask spread of `currency_id` in a pool owned by `who`. Both must be
    /// within the maximum spread, where one is set.
    pub fn set_spread(
        &mut self,
        who: AccountId,
        pool_id: LiquidityPoolId,
        currency_id: CurrencyId,
        bid: Price,
        ask: Price,
    ) -> (r: Result<(), DispatchError>)
        requires
            old(self).wf(),
        ensures
            final(self).wf(),
            !old(self).spec_base().spec_is_owner(pool_id, who) ==> r == Err::<(), DispatchError>(
                DispatchError::SyntheticLiquidityPools(SyntheticPoolsError::NoPermission),
            ),
            old(self).spec_base().spec_is_owner(pool_id, who) && old(self).spec_max_spread(
                currency_id,
            ) is Some && (ask.inner > old(self).spec_max_spread(currency_id)->0.inner || bid.inner > old(
                self,
            ).spec_max_spread(currency_id)->0.inner) ==> r == Err::<(), DispatchError>(
                DispatchError::SyntheticLiquidityPools(SyntheticPoolsError::SpreadTooHigh),
            ),
            r is Err ==> *final(self) == *old(self),
            r is Ok <==> old(self).spec_base().spec_is_owner(pool_id, who) && (old(self).spec_max_spread(
                currency_id,
            ) is None || (ask.inner <= old(self).spec_max_spread(currency_id)->0.inner && bid.inner
                <= old(self).spec_max_spread(currency_id)->0.inner)),
            r is Ok ==> final(self).stored_option(pool_id, currency_id) == (SyntheticPoolCurrencyOption {
                bid_spread: Some(bid),
                ask_spread: Some(ask),
                ..old(self).stored_option(pool_id, currency_id)
            }) && old(self).same_except_option(&*final(self), pool_id, currency_id),
    {
        if !self.base.is_owner(pool_id, who) {
            return Err(pools_err(SyntheticPoolsError::NoPermission));
        }
        if let Some(max) = self.max_spread(currency_id) {
            if !(ask.inner <= max.inner && bid.inner <= max.inner) {
                return Err(pools_err(SyntheticPoolsError::SpreadTooHigh));
            }
        }
        let mut o = self.stored(pool_id, currency_id);
        o.bid_spread = Some(bid);
        o.ask_spread = Some(ask);
        self.store(pool_id, currency_id, o);
        Ok(())
    }

    /// Sets the additional collateral ratio of `currency_id` in a pool owned by `who`.
    pub fn set_additional_collateral_ratio(
        &mut self,
        who: AccountId,
        pool_id: LiquidityPoolId,
        currency_id: CurrencyId,
        ratio: Option<Permill>,
    ) -> (r: Result<(), DispatchError>)
        requires
            old(self).wf(),
        ensures
            final(self).wf(),
            r is Ok <==> old(self).spec_base().spec_is_owner(pool_id, who),
            r is Err ==> r == Err::<(), DispatchError>(
                DispatchError::SyntheticLiquidityPools(SyntheticPoolsError::NoPermission),
            ) && *final(self) == *old(self),
            r is Ok ==> final(self).stored_option(pool_id, currency_id) == (SyntheticPoolCurrencyOption {
                additional_collateral_ratio: ratio,
                ..old(self).stored_option(pool_id, currency_id)
            }) && old(self).same_except_option(&*final(self), pool_id, currency_id),
    {
        if !self.base.is_owner(pool_id, who) {
            return Err(pools_err(SyntheticPoolsError::NoPermission));
        }
        let mut o = self.stored(pool_id, currency_id);
        o.additional_collateral_ratio = ratio;
        self.store(pool_id, currency_id, o);
        Ok(())
    }

    /// Enables or disables minting `currency_id` in a pool owned by `who`.
    pub fn set_synthetic_enabled(
        &mut self,
        who: AccountId,
        pool_id: LiquidityPoolId,
        currency_id: CurrencyId,
        enabled: bool,
    ) -> (r: Result<(), DispatchError>)
        requires
            old(self).wf(),
        ensures
            final(self).wf(),
            r is Ok <==> old(self).spec_base().spec_is_owner(pool_id, who),
            r is Err ==> r == Err::<(), DispatchError>(
                DispatchError::SyntheticLiquidityPools(SyntheticPoolsError::NoPermission),
            ) && *final(self) == *old(self),
            r is Ok ==> final(self).stored_option(pool_id, currency_id) == (SyntheticPoolCurrencyOption {
                synthetic_enabled: enabled,
                ..old(self).stored_option(pool_id, currency_id)
            }) && old(self).same_except_option(&*final(self), pool_id, currency_id),
    {
        if !self.base.is_owner(pool_id, who) {
            return Err(pools_err(SyntheticPoolsError::NoPermission));
        }
        let mut o = self.stored(pool_id, currency_id);
        o.synthetic_enabled = enabled;
        self.store(pool_id, currency_id, o);
        Ok(())
    }

    /// Sets the minimum additional collateral ratio. May only be called from the update
    /// origin.
    pub fn set_min_additional_collateral_ratio(&mut self, origin: AccountId, ratio: Permill) -> (r: Result<
        (),
        DispatchError,
    >)
        requires
            old(self).wf(),
        ensures
            final(self).wf(),
            r is Ok <==> origin == old(self).spec_update_origin(),
            r is Err ==> r == Err::<(), DispatchError>(DispatchError::BadOrigin) && *final(self)
                == *old(self),
            r is Ok ==> final(self).spec_min_ratio() == ratio,
            final(self).spec_base() == old(self).spec_base(),
            forall|p: LiquidityPoolId, c: CurrencyId| #[trigger] final(self).stored_option(p, c)
                == old(self).stored_option(p, c),
            forall|c: CurrencyId| #[trigger] final(self).spec_max_spread(c) == old(self).spec_max_spread(c),
    {
        if origin != self.update_origin {
            return Err(DispatchError::BadOrigin);
        }
        self.min_additional_collateral_ratio = ratio;
        Ok(())
    }

    /// Sets the maximum spread of `currency_id`. May only be called from the update origin.
    pub fn set_max_spread(&mut self, origin: AccountId, currency_id: CurrencyId, max_spread: Price) -> (r:
        Result<(), DispatchError>)
        requires
            old(self).wf(),
        ensures
            final(self).wf(),
            r is Ok <==> origin == old(self).spec_update_origin(),
            r is Err ==> r == Err::<(), DispatchError>(DispatchError::BadOrigin) && *final(self)
                == *old(self),
            r is Ok ==> final(self).spec_max_spread(currency_id) == Some(max_spread),
            forall|c: CurrencyId| c != currency_id ==> #[trigger] final(self).spec_max_spread(c)
                == old(self).spec_max_spread(c),
            final(self).spec_base() == old(self).spec_base(),
            final(self).spec_min_ratio() == old(self).spec_min_ratio(),
            forall|p: LiquidityPoolId, c: CurrencyId| #[trigger] final(self).stored_option(p, c)
                == old(self).stored_option(p, c),
    {
        if origin != self.update_origin {
            return Err(DispatchError::BadOrigin);
        }
        self.max_spread.insert(currency_id, max_spread);
        Ok(())
    }

    /// Removes all options of `pool_id`: the pool has been disabled or removed.
    pub fn on_disable(&mut self, pool_id: LiquidityPoolId)
        requires
            old(self).wf(),
        ensures
            final(self).wf(),
            forall|c: CurrencyId| #[trigger] final(self).stored_option(pool_id, c) == spec_default_option(),
            forall|p: LiquidityPoolId, c: CurrencyId|
                p != pool_id ==> #[trigger] final(self).stored_option(p, c) == old(self).stored_option(p, c),
            final(self).spec_base() == old(self).spec_base(),
            final(self).spec_min_ratio() == old(self).spec_min_ratio(),
            final(self).spec_update_origin() == old(self).spec_update_origin(),
            forall|c: CurrencyId| #[trigger] final(self).spec_max_spread(c) == old(self).spec_max_spread(c),
    {
        let mut ks: Vec<PoolCurrency> = Vec::new();
        let n = self.options.len();
        let mut i: usize = 0;
        while i < n
            invariant
                self.wf(),
                n == self.options.entries().len(),
                i <= n,
                forall|m: int| 0 <= m < ks@.len() ==> (#[trigger] ks@[m]).pool == pool_id,
                forall|j: int|
                    0 <= j < i && (#[trigger] self.options.entries()[j]).0.pool == pool_id ==> ks@.contains(
                        self.options.entries()[j].0,
                    ),
            decreases n - i,
        {
            let k = self.options.key_at(i);
            let ghost old_ks = ks@;
            if k.pool == pool_id {
                ks.push(k);
                proof {
                    assert(ks@[ks@.len() - 1] == k);
                    assert forall|j: int|
                        0 <= j < i + 1 && (#[trigger] self.options.entries()[j]).0.pool == pool_id implies ks@.contains(
                            self.options.entries()[j].0) by {
                        if j < i {
                            let m = choose|m: int| 0 <= m < old_ks.len() && old_ks[m] == self.options.entries()[j].0;
                            assert(ks@[m] == old_ks[m]);
                        }
                    }
                }
            }
            i = i + 1;
        }
        proof {
            self.options.lemma_wf();
            assert forall|c: CurrencyId| #[trigger] self.options.spec_get(PoolCurrency { pool: pool_id, currency: c }) is Some
                implies ks@.contains(PoolCurrency { pool: pool_id, currency: c }) by {
                let k = PoolCurrency { pool: pool_id, currency: c };
                assert(self.options.spec_contains(k));
                let j = choose|j: int| 0 <= j < self.options.entries().len() && self.options.entries()[j].0 == k;
                assert(self.options.entries()[j].0.pool == pool_id);
            }
        }
        self.options.remove_keys(&ks);
    }

    /// Removes all options of `pool_id` once the pool is removed.
    pub fn on_remove(&mut self, pool_id: LiquidityPoolId)
        requires
            old(self).wf(),
        ensures
            final(self).wf(),
            forall|c: CurrencyId| #[trigger] final(self).stored_option(pool_id, c) == spec_default_option(),
            forall|p: LiquidityPoolId, c: CurrencyId|
                p != pool_id ==> #[trigger] final(self).stored_option(p, c) == old(self).stored_option(p, c),
            final(self).spec_base() == old(self).spec_base(),
            final(self).spec_min_ratio() == old(self).spec_min_ratio(),
            final(self).spec_update_origin() == old(self).spec_update_origin(),
            forall|c: CurrencyId| #[trigger] final(self).spec_max_spread(c) == old(self).spec_max_spread(c),
    {
        self.on_disable(pool_id);
    }
}

} // verus!
