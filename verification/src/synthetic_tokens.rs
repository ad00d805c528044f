//! Synthetic tokens: the collateral and synthetic positions of each currency in each pool,
//! and the liquidation ratios of each currency.
use vstd::prelude::*;
use crate::error::DispatchError;
use crate::fixed::{spec_ufixed_div, Permill, UFixed, ACCURACY};
use crate::primitives::{AccountId, Balance, CurrencyId, LiquidityPoolId};
use crate::table::{Table, TableKey};

verus! {

/// Key of a synthetic position.
#[derive(Clone, Copy, Debug, PartialEq, Eq, Structural)]
pub struct PoolCurrency {
    pub pool: LiquidityPoolId,
    pub currency: CurrencyId,
}

impl TableKey for PoolCurrency {
    fn key_eq(&self, other: &Self) -> (r: bool) {
        self.pool == other.pool && self.currency == other.currency
    }
}

/// Synthetic token position.
#[derive(Clone, Copy, Debug, PartialEq, Eq, Structural)]
pub struct Position {
    /// Collateral amount.
    pub collateral: Balance,
    /// Synthetic amount.
    pub synthetic: Balance,
}

/// Synthetic token ratio options.
#[derive(Clone, Copy, Debug, PartialEq, Eq, Structural)]
pub struct SyntheticTokensRatio {
    /// Extreme liquidation ratio.
    pub extreme: Option<Permill>,
    /// Liquidation ratio.
    pub liquidation: Option<Permill>,
    /// Collateral ratio.
    pub collateral: Option<Permill>,
}

impl SyntheticTokensRatio {
    pub fn none() -> (r: SyntheticTokensRatio)
        ensures
            r.extreme is None && r.liquidation is None && r.collateral is None,
    {
        SyntheticTokensRatio { extreme: None, liquidation: None, collateral: None }
    }
}

/// The synthetic tokens module.
pub struct SyntheticTokens {
    pub(crate) ratios: Table<CurrencyId, SyntheticTokensRatio>,
    pub(crate) positions: Table<PoolCurrency, Position>,
    pub(crate) default_extreme_ratio: Permill,
    pub(crate) default_liquidation_ratio: Permill,
    pub(crate) default_collateral_ratio: Permill,
    pub(crate) synthetic_currency_ids: Vec<CurrencyId>,
    pub(crate) update_origin: AccountId,
    pub(crate) account: AccountId,
}

/// The incentive ratio of a liquidation, as the inner value of a fixed-point number: `1`
/// below a collateral ratio of `1 + extreme`, `0` from `1 + liquidation` on and below `1`,
/// and `(liquidation - (ratio - 1)) / (liquidation - extreme)` in between.
pub open spec fn spec_incentive_ratio(current: u128, liquidation_parts: u32, extreme_parts: u32) -> u128 {
    let liquidation: nat = liquidation_parts as nat * 1_000_000_000_000;
    let extreme: nat = extreme_parts as nat * 1_000_000_000_000;
    if current < ACCURACY {
        0
    } else {
        let ratio = current - ACCURACY;
        if ratio >= liquidation {
            0
        } else if ratio <= extreme {
            ACCURACY
        } else {
            spec_ufixed_div((liquidation - ratio) as u128, (liquidation - extreme) as u128)->0
        }
    }
}

impl SyntheticTokens {
    pub closed spec fn wf(&self) -> bool {
        self.ratios.wf() && self.positions.wf()
    }

    pub closed spec fn ratio(&self, c: CurrencyId) -> SyntheticTokensRatio {
        match self.ratios.spec_get(c) {
            Some(r) => r,
            None => SyntheticTokensRatio { extreme: None, liquidation: None, collateral: None },
        }
    }

    /// The position of `currency` in `pool`; zero if never set.
    pub closed spec fn position(&self, pool: LiquidityPoolId, currency: CurrencyId) -> Position {
        match self.positions.spec_get(PoolCurrency { pool, currency }) {
            Some(p) => p,
            None => Position { collateral: 0, synthetic: 0 },
        }
    }

    pub closed spec fn spec_default_extreme(&self) -> Permill {
        self.default_extreme_ratio
    }

    pub closed spec fn spec_default_liquidation(&self) -> Permill {
        self.default_liquidation_ratio
    }

    pub closed spec fn spec_default_collateral(&self) -> Permill {
        self.default_collateral_ratio
    }

    pub closed spec fn spec_synthetic_currency_ids(&self) -> Seq<CurrencyId> {
        self.synthetic_currency_ids@
    }

    pub closed spec fn spec_update_origin(&self) -> AccountId {
        self.update_origin
    }

    /// The account holding the collateral of all positions.
    pub closed spec fn spec_account(&self) -> AccountId {
        self.account
    }

    pub open spec fn spec_liquidation_ratio(&self, c: CurrencyId) -> Permill {
        match self.ratio(c).liquidation {
            Some(r) => r,
            None => self.spec_default_liquidation(),
        }
    }

    pub open spec fn spec_extreme_ratio(&self, c: CurrencyId) -> Permill {
        match self.ratio(c).extreme {
            Some(r) => r,
            None => self.spec_default_extreme(),
        }
    }

    pub open spec fn spec_collateral_ratio(&self, c: CurrencyId) -> Permill {
        match self.ratio(c).collateral {
            Some(r) => r,
            None => self.spec_default_collateral(),
        }
    }

    /// The configuration of two states is the same.
    pub open spec fn same_config(&self, other: &SyntheticTokens) -> bool {
        &&& other.spec_default_extreme() == self.spec_default_extreme()
        &&& other.spec_default_liquidation() == self.spec_default_liquidation()
        &&& other.spec_default_collateral() == self.spec_default_collateral()
        &&& other.spec_synthetic_currency_ids() == self.spec_synthetic_currency_ids()
        &&& other.spec_update_origin() == self.spec_update_origin()
        &&& other.spec_account() == self.spec_account()
    }

    pub fn new(
        default_extreme_ratio: Permill,
        default_liquidation_ratio: Permill,
        default_collateral_ratio: Permill,
        synthetic_currency_ids: Vec<CurrencyId>,
        update_origin: AccountId,
        account: AccountId,
    ) -> (r: SyntheticTokens)
        ensures
            r.wf(),
            r.spec_default_extreme() == default_extreme_ratio,
            r.spec_default_liquidation() == default_liquidation_ratio,
            r.spec_default_collateral() == default_collateral_ratio,
            r.spec_synthetic_currency_ids() == synthetic_currency_ids@,
            r.spec_update_origin() == update_origin,
            r.spec_account() == account,
            forall|c: CurrencyId| #[trigger] r.ratio(c) == (SyntheticTokensRatio {
                extreme: None,
                liquidation: None,
                collateral: None,
            }),
            forall|p: LiquidityPoolId, c: CurrencyId| #[trigger] r.position(p, c) == (Position {
                collateral: 0,
                synthetic: 0,
            }),
    {
        SyntheticTokens {
            ratios: Table::new(),
            positions: Table::new(),
            default_extreme_ratio,
            default_liquidation_ratio,
            default_collateral_ratio,
            synthetic_currency_ids,
            update_origin,
            account,
        }
    }

    pub fn account_id(&self) -> (r: AccountId)
        ensures
            r == self.spec_account(),
    {
        self.account
    }

    /// Ratios of `currency_id`.
    pub fn ratios(&self, currency_id: CurrencyId) -> (r: SyntheticTokensRatio)
        requires
            self.wf(),
        ensures
            r == self.ratio(currency_id),
    {
        match self.ratios.get_copy(&currency_id) {
            Some(r) => r,
            None => SyntheticTokensRatio::none(),
        }
    }

    /// Whether `currency_id` is a synthetic currency.
    pub fn is_synthetic_currency(&self, currency_id: CurrencyId) -> (r: bool)
        ensures
            r == self.spec_synthetic_currency_ids().contains(currency_id),
    {
        let mut i: usize = 0;
        while i < self.synthetic_currency_ids.len()
            invariant
                i <= self.synthetic_currency_ids@.len(),
                forall|j: int| 0 <= j < i ==> self.synthetic_currency_ids@[j] != currency_id,
            decreases self.synthetic_currency_ids@.len() - i,
        {
            if self.synthetic_currency_ids[i] == currency_id {
                return true;
            }
            i = i + 1;
        }
        false
    }

    fn update_ratio(&mut self, currency_id: CurrencyId, r: SyntheticTokensRatio)
        requires
            old(self).wf(),
        ensures
            final(self).wf(),
            final(self).same_config(&*old(self)),
            final(self).ratio(currency_id) == r,
            forall|c: CurrencyId| c != currency_id ==> #[trigger] final(self).ratio(c) == old(self).ratio(c),
            forall|p: LiquidityPoolId, c: CurrencyId| #[trigger] final(self).position(p, c) == old(self).position(p, c),
    {
        self.ratios.insert(currency_id, r);
    }

    /// Sets the extreme liquidation ratio of `currency_id`. May only be called from the
    /// update origin.
    pub fn set_extreme_ratio(&mut self, origin: AccountId, currency_id: CurrencyId, ratio: Permill) -> (r:
        Result<(), DispatchError>)
        requires
            old(self).wf(),
        ensures
            final(self).wf(),
            final(self).same_config(&*old(self)),
            r is Ok <==> origin == old(self).spec_update_origin(),
            r is Err ==> r == Err::<(), DispatchError>(DispatchError::BadOrigin) && *final(self)
                == *old(self),
            r is Ok ==> final(self).ratio(currency_id) == (SyntheticTokensRatio {
                extreme: Some(ratio),
                liquidation: old(self).ratio(currency_id).liquidation,
                collateral: old(self).ratio(currency_id).collateral,
            }),
            r is Ok ==> forall|c: CurrencyId| c != currency_id ==> #[trigger] final(self).ratio(c)
                == old(self).ratio(c),
            forall|p: LiquidityPoolId, c: CurrencyId| #[trigger] final(self).position(p, c) == old(self).position(p, c),
    {
        if origin != self.update_origin {
            return Err(DispatchError::BadOrigin);
        }
        let mut r = self.ratios(currency_id);
        r.extreme = Some(ratio);
        self.update_ratio(currency_id, r);
        Ok(())
    }

    /// Sets the liquidation ratio of `currency_id`. May only be called from the update origin.
    pub fn set_liquidation_ratio(&mut self, origin: AccountId, currency_id: CurrencyId, ratio: Permill) -> (r:
        Result<(), DispatchError>)
        requires
            old(self).wf(),
        ensures
            final(self).wf(),
            final(self).same_config(&*old(self)),
            r is Ok <==> origin == old(self).spec_update_origin(),
            r is Err ==> r == Err::<(), DispatchError>(DispatchError::BadOrigin) && *final(self)
                == *old(self),
            r is Ok ==> final(self).ratio(currency_id) == (SyntheticTokensRatio {
                liquidation: Some(ratio),
                extreme: old(self).ratio(currency_id).extreme,
                collateral: old(self).ratio(currency_id).collateral,
            }),
            r is Ok ==> forall|c: CurrencyId| c != currency_id ==> #[trigger] final(self).ratio(c)
                == old(self).ratio(c),
            forall|p: LiquidityPoolId, c: CurrencyId| #[trigger] final(self).position(p, c) == old(self).position(p, c),
    {
        if origin != self.update_origin {
            return Err(DispatchError::BadOrigin);
        }
        let mut r = self.ratios(currency_id);
        r.liquidation = Some(ratio);
        self.update_ratio(currency_id, r);
        Ok(())
    }

    /// Sets the collateral ratio of `currency_id`. May only be called from the update origin.
    pub fn set_collateral_ratio(&mut self, origin: AccountId, currency_id: CurrencyId, ratio: Permill) -> (r:
        Result<(), DispatchError>)
        requires
            old(self).wf(),
        ensures
            final(self).wf(),
            final(self).same_config(&*old(self)),
            r is Ok <==> origin == old(self).spec_update_origin(),
            r is Err ==> r == Err::<(), DispatchError>(DispatchError::BadOrigin) && *final(self)
                == *old(self),
            r is Ok ==> final(self).ratio(currency_id) == (SyntheticTokensRatio {
                collateral: Some(ratio),
                extreme: old(self).ratio(currency_id).extreme,
                liquidation: old(self).ratio(currency_id).liquidation,
            }),
            r is Ok ==> forall|c: CurrencyId| c != currency_id ==> #[trigger] final(self).ratio(c)
                == old(self).ratio(c),
            forall|p: LiquidityPoolId, c: CurrencyId| #[trigger] final(self).position(p, c) == old(self).position(p, c),
    {
        if origin != self.update_origin {
            return Err(DispatchError::BadOrigin);
        }
        let mut r = self.ratios(currency_id);
        r.collateral = Some(ratio);
        self.update_ratio(currency_id, r);
        Ok(())
    }

    /// The position of `currency_id` in `pool_id`; zero if never set.
    pub fn positions(&self, pool_id: LiquidityPoolId, currency_id: CurrencyId) -> (r: Position)
        requires
            self.wf(),
        ensures
            r == self.position(pool_id, currency_id),
    {
        match self.positions.get_copy(&PoolCurrency { pool: pool_id, currency: currency_id }) {
            Some(p) => p,
            None => Position { collateral: 0, synthetic: 0 },
        }
    }

    /// The position of `currency_id` in `pool_id`: `(collateral, synthetic)`.
    pub fn get_position(&self, pool_id: LiquidityPoolId, currency_id: CurrencyId) -> (r: (Balance, Balance))
        requires
            self.wf(),
        ensures
            r == (self.position(pool_id, currency_id).collateral, self.position(
                pool_id,
                currency_id,
            ).synthetic),
    {
        match self.positions.get_copy(&PoolCurrency { pool: pool_id, currency: currency_id }) {
            Some(p) => (p.collateral, p.synthetic),
            None => (0, 0),
        }
    }

    fn set_position(&mut self, pool_id: LiquidityPoolId, currency_id: CurrencyId, p: Position)
        requires
            old(self).wf(),
        ensures
            final(self).wf(),
            final(self).same_config(&*old(self)),
            final(self).position(pool_id, currency_id) == p,
            forall|q: LiquidityPoolId, c: CurrencyId|
                !(q == pool_id && c == currency_id) ==> #[trigger] final(self).position(q, c) == old(
                    self,
                ).position(q, c),
            forall|c: CurrencyId| #[trigger] final(self).ratio(c) == old(self).ratio(c),
    {
        self.positions.insert(PoolCurrency { pool: pool_id, currency: currency_id }, p);
    }

    /// Adds `collateral` and `synthetic` to a position, saturating at `u128::MAX`.
    pub fn add_position(
        &mut self,
        pool_id: LiquidityPoolId,
        currency_id: CurrencyId,
        collateral: Balance,
        synthetic: Balance,
    )
        requires
            old(self).wf(),
        ensures
            final(self).wf(),
            final(self).same_config(&*old(self)),
            final(self).position(pool_id, currency_id) == position_added(
                old(self).position(pool_id, currency_id),
                collateral,
                synthetic,
            ),
            forall|q: LiquidityPoolId, c: CurrencyId|
                !(q == pool_id && c == currency_id) ==> #[trigger] final(self).position(q, c) == old(
                    self,
                ).position(q, c),
            forall|c: CurrencyId| #[trigger] final(self).ratio(c) == old(self).ratio(c),
    {
        let (c0, s0) = self.get_position(pool_id, currency_id);
        self.set_position(
            pool_id,
            currency_id,
            Position { collateral: c0.saturating_add(collateral), synthetic: s0.saturating_add(synthetic) },
        );
    }

    /// Removes `collateral` and `synthetic` from a position, saturating at zero.
    pub fn remove_position(
        &mut self,
        pool_id: LiquidityPoolId,
        currency_id: CurrencyId,
        collateral: Balance,
        synthetic: Balance,
    )
        requires
            old(self).wf(),
        ensures
            final(self).wf(),
            final(self).same_config(&*old(self)),
            final(self).position(pool_id, currency_id) == position_removed(
                old(self).position(pool_id, currency_id),
                collateral,
                synthetic,
            ),
            forall|q: LiquidityPoolId, c: CurrencyId|
                !(q == pool_id && c == currency_id) ==> #[trigger] final(self).position(q, c) == old(
                    self,
                ).position(q, c),
            forall|c: CurrencyId| #[trigger] final(self).ratio(c) == old(self).ratio(c),
    {
        let (c0, s0) = self.get_position(pool_id, currency_id);
        self.set_position(
            pool_id,
            currency_id,
            Position { collateral: c0.saturating_sub(collateral), synthetic: s0.saturating_sub(synthetic) },
        );
    }

    pub fn liquidation_ratio_or_default(&self, currency_id: CurrencyId) -> (r: Permill)
        requires
            self.wf(),
        ensures
            r == self.spec_liquidation_ratio(currency_id),
    {
        match self.ratios(currency_id).liquidation {
            Some(r) => r,
            None => self.default_liquidation_ratio,
        }
    }

    pub fn extreme_ratio_or_default(&self, currency_id: CurrencyId) -> (r: Permill)
        requires
            self.wf(),
        ensures
            r == self.spec_extreme_ratio(currency_id),
    {
        match self.ratios(currency_id).extreme {
            Some(r) => r,
            None => self.default_extreme_ratio,
        }
    }

    pub fn collateral_ratio_or_default(&self, currency_id: CurrencyId) -> (r: Permill)
        requires
            self.wf(),
        ensures
            r == self.spec_collateral_ratio(currency_id),
    {
        match self.ratios(currency_id).collateral {
            Some(r) => r,
            None => self.default_collateral_ratio,
        }
    }

    /// The incentive ratio of liquidating `currency_id` at collateral ratio `current_ratio`:
    /// `1` if `current_ratio - 1 <= extreme_ratio`, `0` if `current_ratio < 1` or
    /// `current_ratio - 1 >= liquidation_ratio`, otherwise
    /// `(liquidation_ratio - (current_ratio - 1)) / (liquidation_ratio - extreme_ratio)`.
    pub fn incentive_ratio(&self, currency_id: CurrencyId, current_ratio: UFixed) -> (r: UFixed)
        requires
            self.wf(),
        ensures
            r.inner == spec_incentive_ratio(
                current_ratio.inner,
                self.spec_liquidation_ratio(currency_id).spec_parts(),
                self.spec_extreme_ratio(currency_id).spec_parts(),
            ),
            r.inner <= ACCURACY,
    {
        let one = UFixed::one();
        if current_ratio.inner < one.inner {
            return UFixed::from_inner(0);
        }
        let ratio = current_ratio.checked_sub(&one).unwrap();
        let liquidation_ratio = UFixed::from_permill(self.liquidation_ratio_or_default(currency_id));
        if ratio.inner >= liquidation_ratio.inner {
            return UFixed::from_inner(0);
        }
        let extreme_ratio = UFixed::from_permill(self.extreme_ratio_or_default(currency_id));
        if ratio.inner <= extreme_ratio.inner {
            return one;
        }
        let gap = liquidation_ratio.checked_sub(&ratio).unwrap();
        let range = liquidation_ratio.checked_sub(&extreme_ratio).unwrap();
        proof {
            lemma_mul_div_below_one(gap.inner as nat, range.inner as nat);
        }
        gap.checked_div(&range).unwrap()
    }

    /// Whether pool `pool_id` holds no synthetic of any synthetic currency.
    pub fn can_remove(&self, pool_id: LiquidityPoolId) -> (r: bool)
        requires
            self.wf(),
        ensures
            r == forall|j: int|
                0 <= j < self.spec_synthetic_currency_ids().len() ==> #[trigger] self.position(
                    pool_id,
                    self.spec_synthetic_currency_ids()[j],
                ).synthetic == 0,
    {
        let mut i: usize = 0;
        while i < self.synthetic_currency_ids.len()
            invariant
                self.wf(),
                i <= self.synthetic_currency_ids@.len(),
                forall|j: int|
                    0 <= j < i ==> #[trigger] self.position(pool_id, self.synthetic_currency_ids@[j]).synthetic
                        == 0,
            decreases self.synthetic_currency_ids@.len() - i,
        {
            let (_, s) = self.get_position(pool_id, self.synthetic_currency_ids[i]);
            if s != 0 {
                assert(self.position(pool_id, self.spec_synthetic_currency_ids()[i as int]).synthetic != 0);
                return false;
            }
            i = i + 1;
        }
        true
    }

    /// Any amount may be withdrawn from a pool as far as synthetic positions are concerned.
    pub fn ensure_can_withdraw(&self, pool_id: LiquidityPoolId, amount: Balance) -> (r: Result<(), DispatchError>)
        ensures
            r is Ok,
    {
        Ok(())
    }
}

/// A position with `collateral` and `synthetic` added, saturating at `u128::MAX`.
pub open spec fn position_added(p: Position, collateral: Balance, synthetic: Balance) -> Position {
    Position {
        collateral: crate::fixed::spec_saturate_u128(p.collateral + collateral),
        synthetic: crate::fixed::spec_saturate_u128(p.synthetic + synthetic),
    }
}

/// A position with `collateral` and `synthetic` removed, saturating at zero.
pub open spec fn position_removed(p: Position, collateral: Balance, synthetic: Balance) -> Position {
    Position {
        collateral: crate::fixed::spec_saturate_u128(p.collateral - collateral),
        synthetic: crate::fixed::spec_saturate_u128(p.synthetic - synthetic),
    }
}

/// Removing from a position what was just added to it restores the position, where the
/// addition did not saturate.
pub proof fn lemma_add_then_remove(p: Position, collateral: Balance, synthetic: Balance)
    requires
        p.collateral + collateral <= u128::MAX,
        p.synthetic + synthetic <= u128::MAX,
    ensures
        position_removed(position_added(p, collateral, synthetic), collateral, synthetic) == p,
{
}

/// A ratio of two amounts, the first below the second, is at most one.
pub proof fn lemma_mul_div_below_one(a: nat, c: nat)
    requires
        a < c,
        c <= u128::MAX,
    ensures
        crate::fixed::mul_div(a, ACCURACY as nat, c) <= ACCURACY,
{
    let d = ACCURACY as nat;
    let p = a * d;
    assert(p < c * d) by (nonlinear_arith)
        requires
            a < c,
            d > 0,
            p == a * d,
    ;
    assert(p / c < d) by (nonlinear_arith)
        requires
            p < c * d,
            c > 0,
    ;
}

/// `mul_div` does not decrease when its first argument grows.
pub proof fn lemma_mul_div_monotone(a1: nat, a2: nat, b: nat, c: nat)
    requires
        a1 <= a2,
        c > 0,
    ensures
        crate::fixed::mul_div(a1, b, c) <= crate::fixed::mul_div(a2, b, c),
{
    let p1: nat = a1 * b;
    let p2: nat = a2 * b;
    assert(p1 <= p2) by (nonlinear_arith)
        requires
            a1 <= a2,
            p1 == a1 * b,
            p2 == a2 * b,
    ;
    if a1 != 0 && b != 0 {
        vstd::arithmetic::div_mod::lemma_div_is_ordered(p1 as int, p2 as int, c as int);
        vstd::arithmetic::div_mod::lemma_fundamental_div_mod(p1 as int, c as int);
        vstd::arithmetic::div_mod::lemma_fundamental_div_mod(p2 as int, c as int);
        if a2 % c == 0 {
            let k: nat = a2 / c;
            vstd::arithmetic::div_mod::lemma_fundamental_div_mod(a2 as int, c as int);
            let kb: nat = k * b;
            assert(p2 == kb * c) by (nonlinear_arith)
                requires
                    a2 == c * k,
                    p2 == a2 * b,
                    kb == k * b,
            ;
            vstd::arithmetic::div_mod::lemma_mod_multiples_basic(kb as int, c as int);
        }
    }
}

/// From a collateral ratio of one up, the incentive ratio does not grow as the collateral
/// ratio rises.
pub proof fn lemma_incentive_ratio_non_increasing(c1: u128, c2: u128, liquidation_parts: u32, extreme_parts: u32)
    requires
        ACCURACY <= c1 <= c2,
    ensures
        spec_incentive_ratio(c2, liquidation_parts, extreme_parts) <= spec_incentive_ratio(
            c1,
            liquidation_parts,
            extreme_parts,
        ),
{
    let liquidation: nat = liquidation_parts as nat * 1_000_000_000_000;
    let extreme: nat = extreme_parts as nat * 1_000_000_000_000;
    let r1 = c1 - ACCURACY;
    let r2 = c2 - ACCURACY;
    if r2 < liquidation && r2 > extreme {
        let range: nat = (liquidation - extreme) as nat;
        let g2: nat = (liquidation - r2) as nat;
        lemma_mul_div_below_one(g2, range);
        if r1 > extreme {
            let g1: nat = (liquidation - r1) as nat;
            lemma_mul_div_below_one(g1, range);
            lemma_mul_div_monotone(g2, g1, ACCURACY as nat, range);
        }
    }
}

} // verus!
