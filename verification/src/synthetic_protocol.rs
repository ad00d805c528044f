//! The synthetic protocol: minting synthetic tokens against collateral in a liquidity pool,
//! redeeming them, liquidating under-collateralized positions, and moving the collateral
//! of pools in and out.
//!
//! A call changes the ledger, the base pools and the positions only when it succeeds: on
//! an error everything is as before the call.
use vstd::prelude::*;
use crate::error::{DispatchError, SyntheticError};
use crate::fixed::{
    spec_permill_mul, spec_saturate_u128, spec_ufixed_from_rational, spec_ufixed_mul_int, Price, UFixed,
    ACCURACY,
};
use crate::ledger::{
    after_deposit, after_transfer, after_withdraw, deposit_ok, transfer_error, transfer_ok, withdraw_ok,
    Balances, Ledger,
};
use crate::prices::Prices;
use crate::primitives::{AccountId, Balance, CurrencyId, LiquidityPoolId};
use crate::synthetic_pools::SyntheticLiquidityPools;
use crate::synthetic_tokens::{spec_incentive_ratio, SyntheticTokens};
use crate::base_pools::{
    pool_deposit_error, pool_deposit_ok, pool_withdraw_error, pool_withdraw_ok, pools_after, BaseLiquidityPools,
};

verus! {

/// The synthetic protocol; its only setting is the collateral currency.
pub struct SyntheticProtocol {
    pub collateral_currency: CurrencyId,
}

fn syn_err(e: SyntheticError) -> (r: DispatchError)
    ensures
        r == DispatchError::SyntheticProtocol(e),
{
    DispatchError::SyntheticProtocol(e)
}

/// `price + ask_spread`, at most `max_price`.
pub open spec fn spec_ask_price(spread: Option<Price>, price: Price, max_price: Price) -> Result<Price, SyntheticError> {
    match spread {
        None => Err(SyntheticError::NoAskSpread),
        Some(s) => if price.inner + s.inner > u128::MAX {
            Err(SyntheticError::NumOverflow)
        } else if price.inner + s.inner > max_price.inner {
            Err(SyntheticError::AskPriceTooHigh)
        } else {
            Ok(UFixed { inner: (price.inner + s.inner) as u128 })
        },
    }
}

/// `price - bid_spread`, at least `min_price` where one is given.
pub open spec fn spec_bid_price(spread: Option<Price>, price: Price, min_price: Option<Price>) -> Result<Price, SyntheticError> {
    match spread {
        None => Err(SyntheticError::NoBidSpread),
        Some(s) => {
            let bid = UFixed { inner: (price.inner - s.inner) as u128 };
            match min_price {
                Some(m) => if bid.inner < m.inner {
                    Err(SyntheticError::BidPriceTooLow)
                } else {
                    Ok(bid)
                },
                None => Ok(bid),
            }
        },
    }
}

/// `amount * (1 + ratio)`.
pub open spec fn spec_with_additional(ratio_parts: u32, amount: Balance) -> Result<Balance, SyntheticError> {
    let v = amount + spec_permill_mul(ratio_parts as nat, amount as nat);
    if v > u128::MAX {
        Err(SyntheticError::NumOverflow)
    } else {
        Ok(v as u128)
    }
}

/// The synthetic amount and the collateral the pool adds, for minting with `collateral` at
/// `ask`: `synthetic = collateral / ask`, `additional = synthetic * price * (1 + ratio) -
/// collateral`.
pub open spec fn spec_mint_amounts(price: Price, ask: Price, collateral: Balance, ratio_parts: u32) -> Result<
    (Balance, Balance),
    SyntheticError,
> {
    match spec_ufixed_from_rational(collateral, ask.inner) {
        None => Err(SyntheticError::NumOverflow),
        Some(synthetic) => match spec_ufixed_mul_int(price.inner, synthetic) {
            None => Err(SyntheticError::NumOverflow),
            Some(value) => match spec_with_additional(ratio_parts, value) {
                Err(e) => Err(e),
                Ok(with) => if with < collateral {
                    Err(SyntheticError::NegativeAdditionalCollateralAmount)
                } else {
                    Ok((synthetic, (with - collateral) as u128))
                },
            },
        },
    }
}

/// Position change on removing `burned` synthetic for `redeemed` collateral:
/// `(collateral_position_delta, pool_refund_collateral)`.
pub open spec fn spec_change_on_remove(
    collateral_position: Balance,
    synthetic_position: Balance,
    ratio_parts: u32,
    price: Price,
    burned: Balance,
    redeemed: Balance,
) -> Result<(Balance, Balance), SyntheticError> {
    if synthetic_position < burned {
        Err(SyntheticError::InsufficientSyntheticInPosition)
    } else {
        match spec_ufixed_mul_int(price.inner, (synthetic_position - burned) as u128) {
            None => Err(SyntheticError::NumOverflow),
            Some(value) => match spec_with_additional(ratio_parts, value) {
                Err(e) => Err(e),
                Ok(required) => if required <= collateral_position {
                    let delta = (collateral_position - required) as u128;
                    if delta < redeemed {
                        Err(SyntheticError::InsufficientCollateralInPosition)
                    } else {
                        Ok((delta, (delta - redeemed) as u128))
                    }
                } else {
                    Ok((redeemed, 0))
                },
            },
        }
    }
}

/// A collateral ratio is safe when it is above `1 + liquidation_ratio`.
pub open spec fn spec_is_safe_ratio(liquidation_parts: u32, ratio: u128) -> bool {
    ratio > spec_saturate_u128(liquidation_parts * 1_000_000_000_000 + ACCURACY)
}

/// Position change and incentive on liquidating `burned` synthetic for `liquidized`
/// collateral: `(collateral_position_delta, pool_refund_collateral, incentive)`.
pub open spec fn spec_change_on_liquidation(
    collateral_position: Balance,
    synthetic_position: Balance,
    liquidation_parts: u32,
    extreme_parts: u32,
    price: Price,
    burned: Balance,
    liquidized: Balance,
) -> Result<(Balance, Balance, Balance), SyntheticError> {
    if synthetic_position < burned {
        Err(SyntheticError::InsufficientSyntheticInPosition)
    } else if collateral_position < liquidized {
        Err(SyntheticError::InsufficientCollateralInPosition)
    } else {
        let new_synthetic = (synthetic_position - burned) as u128;
        let new_collateral = (collateral_position - liquidized) as u128;
        match spec_ufixed_mul_int(price.inner, synthetic_position) {
            None => Err(SyntheticError::NumOverflow),
            Some(value) => if collateral_position <= value {
                Ok((liquidized, 0, 0))
            } else {
                let current = match spec_ufixed_from_rational(collateral_position, value) {
                    Some(v) => v,
                    None => 0,
                };
                if spec_is_safe_ratio(liquidation_parts, current) {
                    Err(SyntheticError::StillInSafePosition)
                } else {
                    match spec_ufixed_mul_int(price.inner, new_synthetic) {
                        None => Err(SyntheticError::NumOverflow),
                        Some(v1) => match spec_ufixed_mul_int(current, v1) {
                            None => Err(SyntheticError::NumOverflow),
                            Some(with_current) => if new_collateral > with_current {
                                let available = (new_collateral - with_current) as u128;
                                let ir = spec_incentive_ratio(current, liquidation_parts, extreme_parts);
                                match spec_ufixed_mul_int(ir, available) {
                                    None => Err(SyntheticError::NumOverflow),
                                    Some(incentive) => {
                                        let refund = (available - incentive) as u128;
                                        if liquidized + incentive + refund > u128::MAX {
                                            Err(SyntheticError::NumOverflow)
                                        } else {
                                            Ok(((liquidized + incentive + refund) as u128, refund, incentive))
                                        }
                                    },
                                }
                            } else {
                                Ok((liquidized, 0, 0))
                            },
                        },
                    }
                }
            },
        }
    }
}

/// The synthetic tokens account `sa` is neither the trader `who` nor the account of the pools,
/// the pools hold their liquidity in the collateral currency `cc`, and the synthetic currency
/// is another one.
pub open spec fn separate_accounts(
    who: AccountId,
    sa: AccountId,
    base: BaseLiquidityPools,
    cc: CurrencyId,
    currency: CurrencyId,
) -> bool {
    who != sa && base.spec_account() != sa && base.spec_currency() == cc && currency != cc
}

/// The collateral held by the synthetic tokens account `sa` changed by exactly what the
/// collateral of a position changed.
pub open spec fn locked_follows_position(
    b0: Balances,
    b1: Balances,
    sa: AccountId,
    cc: CurrencyId,
    p0: crate::synthetic_tokens::Position,
    p1: crate::synthetic_tokens::Position,
) -> bool {
    b1(sa, cc) - b0(sa, cc) == p1.collateral - p0.collateral
}

/// What the state of a synthetic position is reported as.
#[derive(Clone, Copy, Debug, PartialEq, Eq, Structural)]
pub struct SyntheticPoolState {
    /// `collateral / (synthetic * price)`.
    pub collateral_ratio: UFixed,
    /// Whether the ratio is above the liquidation threshold.
    pub is_safe: bool,
}

/// The price and spreads of a currency never put the bid price below zero.
pub open spec fn bid_spread_within_price(
    pools: SyntheticLiquidityPools,
    prices: Prices,
    pool: LiquidityPoolId,
    currency: CurrencyId,
    collateral_currency: CurrencyId,
) -> bool {
    prices.price(currency, collateral_currency) is Some && pools.option(pool, currency).bid_spread is Some
        ==> pools.option(pool, currency).bid_spread->0.inner <= prices.price(
        currency,
        collateral_currency,
    )->0.inner
}

impl SyntheticProtocol {
    /// Everything a mint checks before it moves funds: `(synthetic, additional_collateral)`.
    pub open spec fn mint_quote(
        &self,
        tokens: SyntheticTokens,
        pools: SyntheticLiquidityPools,
        prices: Prices,
        pool: LiquidityPoolId,
        currency: CurrencyId,
        collateral: Balance,
        max_price: Price,
    ) -> Result<(Balance, Balance), SyntheticError> {
        if !tokens.spec_synthetic_currency_ids().contains(currency) {
            Err(SyntheticError::NotValidSyntheticCurrencyId)
        } else if !pools.option(pool, currency).synthetic_enabled {
            Err(SyntheticError::CannotMintInPool)
        } else {
            match prices.price(currency, self.collateral_currency) {
                None => Err(SyntheticError::NoPrice),
                Some(price) => match spec_ask_price(pools.option(pool, currency).ask_spread, price, max_price) {
                    Err(e) => Err(e),
                    Ok(ask) => spec_mint_amounts(
                        price,
                        ask,
                        collateral,
                        pools.spec_additional_collateral_ratio(pool, currency).spec_parts(),
                    ),
                },
            }
        }
    }

    /// Everything a redeem computes besides burning: `(redeemed_collateral,
    /// collateral_position_delta, pool_refund_collateral)`.
    pub open spec fn redeem_quote(
        &self,
        tokens: SyntheticTokens,
        pools: SyntheticLiquidityPools,
        prices: Prices,
        pool: LiquidityPoolId,
        currency: CurrencyId,
        synthetic: Balance,
        min_price: Price,
    ) -> Result<(Balance, Balance, Balance), SyntheticError> {
        match prices.price(currency, self.collateral_currency) {
            None => Err(SyntheticError::NoPrice),
            Some(price) => match spec_bid_price(pools.option(pool, currency).bid_spread, price, Some(min_price)) {
                Err(e) => Err(e),
                Ok(bid) => match spec_ufixed_mul_int(bid.inner, synthetic) {
                    None => Err(SyntheticError::NumOverflow),
                    Some(redeemed) => match spec_change_on_remove(
                        tokens.position(pool, currency).collateral,
                        tokens.position(pool, currency).synthetic,
                        pools.spec_additional_collateral_ratio(pool, currency).spec_parts(),
                        price,
                        synthetic,
                        redeemed,
                    ) {
                        Err(e) => Err(e),
                        Ok((delta, refund)) => Ok((redeemed, delta, refund)),
                    },
                },
            },
        }
    }

    /// Everything a liquidation checks before it moves funds: `(collateral,
    /// collateral_position_delta, pool_refund_collateral, incentive)`.
    pub open spec fn liquidate_quote(
        &self,
        tokens: SyntheticTokens,
        pools: SyntheticLiquidityPools,
        prices: Prices,
        pool: LiquidityPoolId,
        currency: CurrencyId,
        synthetic: Balance,
    ) -> Result<(Balance, Balance, Balance, Balance), SyntheticError> {
        if !tokens.spec_synthetic_currency_ids().contains(currency) {
            Err(SyntheticError::NotValidSyntheticCurrencyId)
        } else {
            match prices.price(currency, self.collateral_currency) {
                None => Err(SyntheticError::NoPrice),
                Some(price) => match spec_bid_price(pools.option(pool, currency).bid_spread, price, None) {
                    Err(e) => Err(e),
                    Ok(bid) => match spec_ufixed_mul_int(bid.inner, synthetic) {
                        None => Err(SyntheticError::NumOverflow),
                        Some(collateral) => match spec_change_on_liquidation(
                            tokens.position(pool, currency).collateral,
                            tokens.position(pool, currency).synthetic,
                            tokens.spec_liquidation_ratio(currency).spec_parts(),
                            tokens.spec_extreme_ratio(currency).spec_parts(),
                            price,
                            synthetic,
                            collateral,
                        ) {
                            Err(e) => Err(e),
                            Ok((delta, refund, incentive)) => Ok((collateral, delta, refund, incentive)),
                        },
                    },
                },
            }
        }
    }

    pub fn new(collateral_currency: CurrencyId) -> (r: SyntheticProtocol)
        ensures
            r.collateral_currency == collateral_currency,
    {
        SyntheticProtocol { collateral_currency }
    }

    /// `price + ask_spread`; fails above `max_price`.
    pub fn ask_price(
        &self,
        pools: &SyntheticLiquidityPools,
        pool_id: LiquidityPoolId,
        currency_id: CurrencyId,
        price: Price,
        max_price: Price,
    ) -> (r: Result<Price, SyntheticError>)
        requires
            pools.wf(),
        ensures
            r == spec_ask_price(pools.option(pool_id, currency_id).ask_spread, price, max_price),
    {
        let ask_spread = match pools.ask_spread(pool_id, currency_id) {
            Some(s) => s,
            None => {
                return Err(SyntheticError::NoAskSpread);
            },
        };
        let ask_price = match price.checked_add(&ask_spread) {
            Some(p) => p,
            None => {
                return Err(SyntheticError::NumOverflow);
            },
        };
        if ask_price.inner > max_price.inner {
            return Err(SyntheticError::AskPriceTooHigh);
        }
        Ok(ask_price)
    }

    /// `price - bid_spread`; fails below `min_price` where one is given.
    pub fn bid_price(
        &self,
        pools: &SyntheticLiquidityPools,
        pool_id: LiquidityPoolId,
        currency_id: CurrencyId,
        price: Price,
        min_price: Option<Price>,
    ) -> (r: Result<Price, SyntheticError>)
        requires
            pools.wf(),
            pools.option(pool_id, currency_id).bid_spread is Some ==> pools.option(
                pool_id,
                currency_id,
            ).bid_spread->0.inner <= price.inner,
        ensures
            r == spec_bid_price(pools.option(pool_id, currency_id).bid_spread, price, min_price),
    {
        let bid_spread = match pools.bid_spread(pool_id, currency_id) {
            Some(s) => s,
            None => {
                return Err(SyntheticError::NoBidSpread);
            },
        };
        let bid_price = price.checked_sub(&bid_spread).unwrap();
        if let Some(min) = min_price {
            if bid_price.inner < min.inner {
                return Err(SyntheticError::BidPriceTooLow);
            }
        }
        Ok(bid_price)
    }

    /// `amount * (1 + additional_collateral_ratio)` of `currency_id` in `pool_id`.
    pub fn with_additional_collateral(
        &self,
        pools: &SyntheticLiquidityPools,
        pool_id: LiquidityPoolId,
        currency_id: CurrencyId,
        amount: Balance,
    ) -> (r: Result<Balance, SyntheticError>)
        requires
            pools.wf(),
        ensures
            r == spec_with_additional(
                pools.spec_additional_collateral_ratio(pool_id, currency_id).spec_parts(),
                amount,
            ),
    {
        let ratio = pools.additional_collateral_ratio(pool_id, currency_id);
        let additional = ratio.mul_u128(amount);
        match amount.checked_add(additional) {
            Some(v) => Ok(v),
            None => Err(SyntheticError::NumOverflow),
        }
    }

    /// `synthetic_value * (1 + ratio) - collateral`: the collateral the pool adds.
    pub fn additional_collateral_amount(
        &self,
        pools: &SyntheticLiquidityPools,
        pool_id: LiquidityPoolId,
        currency_id: CurrencyId,
        collateral: Balance,
        synthetic_value: Balance,
    ) -> (r: Result<Balance, SyntheticError>)
        requires
            pools.wf(),
        ensures
            r == match spec_with_additional(
                pools.spec_additional_collateral_ratio(pool_id, currency_id).spec_parts(),
                synthetic_value,
            ) {
                Err(e) => Err(e),
                Ok(with) => if with < collateral {
                    Err(SyntheticError::NegativeAdditionalCollateralAmount)
                } else {
                    Ok((with - collateral) as u128)
                },
            },
    {
        let with = self.with_additional_collateral(pools, pool_id, currency_id, synthetic_value)?;
        match with.checked_sub(collateral) {
            Some(v) => Ok(v),
            None => Err(SyntheticError::NegativeAdditionalCollateralAmount),
        }
    }

    /// Position change on removing `burned_synthetic` for `redeemed_collateral`:
    /// `(collateral_position_delta, pool_refund_collateral)`.
    pub fn collateral_change_on_remove_position(
        &self,
        tokens: &SyntheticTokens,
        pools: &SyntheticLiquidityPools,
        pool_id: LiquidityPoolId,
        currency_id: CurrencyId,
        price: Price,
        burned_synthetic: Balance,
        redeemed_collateral: Balance,
    ) -> (r: Result<(Balance, Balance), SyntheticError>)
        requires
            tokens.wf(),
            pools.wf(),
        ensures
            r == spec_change_on_remove(
                tokens.position(pool_id, currency_id).collateral,
                tokens.position(pool_id, currency_id).synthetic,
                pools.spec_additional_collateral_ratio(pool_id, currency_id).spec_parts(),
                price,
                burned_synthetic,
                redeemed_collateral,
            ),
    {
        let (collateral_position, synthetic_position) = tokens.get_position(pool_id, currency_id);
        let new_synthetic_position = match synthetic_position.checked_sub(burned_synthetic) {
            Some(v) => v,
            None => {
                return Err(SyntheticError::InsufficientSyntheticInPosition);
            },
        };
        let new_synthetic_value = match price.checked_mul_int(new_synthetic_position) {
            Some(v) => v,
            None => {
                return Err(SyntheticError::NumOverflow);
            },
        };
        let required_collateral = self.with_additional_collateral(
            pools,
            pool_id,
            currency_id,
            new_synthetic_value,
        )?;
        let mut collateral_position_delta = redeemed_collateral;
        let mut pool_refund_collateral: Balance = 0;
        if required_collateral <= collateral_position {
            collateral_position_delta = collateral_position - required_collateral;
            pool_refund_collateral = match collateral_position_delta.checked_sub(redeemed_collateral) {
                Some(v) => v,
                None => {
                    return Err(SyntheticError::InsufficientCollateralInPosition);
                },
            };
        }
        Ok((collateral_position_delta, pool_refund_collateral))
    }

    /// Whether collateral ratio `ratio` of `currency_id` is safe: above `1 +
    /// liquidation_ratio`.
    pub fn is_safe_collateral_ratio(&self, tokens: &SyntheticTokens, currency_id: CurrencyId, ratio: UFixed) -> (r:
        bool)
        requires
            tokens.wf(),
        ensures
            r == spec_is_safe_ratio(tokens.spec_liquidation_ratio(currency_id).spec_parts(), ratio.inner),
    {
        let liquidation_ratio = tokens.liquidation_ratio_or_default(currency_id);
        let threshold = UFixed::from_permill(liquidation_ratio).saturating_add(&UFixed::one());
        ratio.inner > threshold.inner
    }

    /// Position change and incentive on liquidating `burned_synthetic` for
    /// `liquidized_collateral`: `(collateral_position_delta, pool_refund_collateral,
    /// incentive)`.
    pub fn collateral_change_on_liquidation(
        &self,
        tokens: &SyntheticTokens,
        pool_id: LiquidityPoolId,
        currency_id: CurrencyId,
        price: Price,
        burned_synthetic: Balance,
        liquidized_collateral: Balance,
    ) -> (r: Result<(Balance, Balance, Balance), SyntheticError>)
        requires
            tokens.wf(),
        ensures
            r == spec_change_on_liquidation(
                tokens.position(pool_id, currency_id).collateral,
                tokens.position(pool_id, currency_id).synthetic,
                tokens.spec_liquidation_ratio(currency_id).spec_parts(),
                tokens.spec_extreme_ratio(currency_id).spec_parts(),
                price,
                burned_synthetic,
                liquidized_collateral,
            ),
            r is Ok ==> r->Ok_0.1 + r->Ok_0.2 <= r->Ok_0.0,
    {
        let (collateral_position, synthetic_position) = tokens.get_position(pool_id, currency_id);
        let new_synthetic_position = match synthetic_position.checked_sub(burned_synthetic) {
            Some(v) => v,
            None => {
                return Err(SyntheticError::InsufficientSyntheticInPosition);
            },
        };
        let new_collateral_position = match collateral_position.checked_sub(liquidized_collateral) {
            Some(v) => v,
            None => {
                return Err(SyntheticError::InsufficientCollateralInPosition);
            },
        };
        let synthetic_position_value = match price.checked_mul_int(synthetic_position) {
            Some(v) => v,
            None => {
                return Err(SyntheticError::NumOverflow);
            },
        };
        if collateral_position <= synthetic_position_value {
            return Ok((liquidized_collateral, 0, 0));
        }
        let current_ratio = match UFixed::checked_from_rational(collateral_position, synthetic_position_value) {
            Some(v) => v,
            None => UFixed::zero(),
        };
        if self.is_safe_collateral_ratio(tokens, currency_id, current_ratio) {
            return Err(SyntheticError::StillInSafePosition);
        }
        let v1 = match price.checked_mul_int(new_synthetic_position) {
            Some(v) => v,
            None => {
                return Err(SyntheticError::NumOverflow);
            },
        };
        let with_current_ratio = match current_ratio.checked_mul_int(v1) {
            Some(v) => v,
            None => {
                return Err(SyntheticError::NumOverflow);
            },
        };
        if new_collateral_position > with_current_ratio {
            let available_for_incentive = new_collateral_position - with_current_ratio;
            let incentive_ratio = tokens.incentive_ratio(currency_id, current_ratio);
            let incentive = match incentive_ratio.checked_mul_int(available_for_incentive) {
                Some(v) => v,
                None => {
                    return Err(SyntheticError::NumOverflow);
                },
            };
            proof {
                lemma_share_at_most_whole(incentive_ratio.inner as nat, available_for_incentive as nat);
            }
            let pool_refund_collateral = available_for_incentive - incentive;
            let total = match liquidized_collateral.checked_add(incentive) {
                Some(v) => match v.checked_add(pool_refund_collateral) {
                    Some(w) => w,
                    None => {
                        return Err(SyntheticError::NumOverflow);
                    },
                },
                None => {
                    return Err(SyntheticError::NumOverflow);
                },
            };
            Ok((total, pool_refund_collateral, incentive))
        } else {
            Ok((liquidized_collateral, 0, 0))
        }
    }

    /// Collateral ratio of a position: `collateral / (synthetic * price)`, zero where that is
    /// undefined; `None` without a price or when the value overflows.
    pub open spec fn ratio_of(
        &self,
        tokens: SyntheticTokens,
        prices: Prices,
        pool: LiquidityPoolId,
        currency: CurrencyId,
    ) -> Option<UFixed> {
        match prices.price(currency, self.collateral_currency) {
            None => None,
            Some(price) => {
                let p = tokens.position(pool, currency);
                match spec_ufixed_mul_int(price.inner, p.synthetic) {
                    None => None,
                    Some(value) => Some(
                        UFixed {
                            inner: match spec_ufixed_from_rational(p.collateral, value) {
                                Some(v) => v,
                                None => 0,
                            },
                        },
                    ),
                }
            },
        }
    }

    /// Collateral ratio of `currency_id` in `pool_id`: `collateral / (synthetic * price)`,
    /// zero where that is undefined; `None` without a price or when the value overflows.
    pub fn collateral_ratio(
        &self,
        tokens: &SyntheticTokens,
        prices: &Prices,
        pool_id: LiquidityPoolId,
        currency_id: CurrencyId,
    ) -> (r: Option<UFixed>)
        requires
            tokens.wf(),
            prices.wf(),
        ensures
            r == self.ratio_of(*tokens, *prices, pool_id, currency_id),
    {
        let (collateral_position, synthetic_position) = tokens.get_position(pool_id, currency_id);
        let price = prices.get_price(currency_id, self.collateral_currency)?;
        let value = price.checked_mul_int(synthetic_position)?;
        match UFixed::checked_from_rational(collateral_position, value) {
            Some(v) => Some(v),
            None => Some(UFixed::zero()),
        }
    }

    /// The collateral ratio of a position and whether it is safe; `None` where the ratio is.
    pub fn pool_state(
        &self,
        tokens: &SyntheticTokens,
        prices: &Prices,
        pool_id: LiquidityPoolId,
        currency_id: CurrencyId,
    ) -> (r: Option<SyntheticPoolState>)
        requires
            tokens.wf(),
            prices.wf(),
        ensures
            r == match self.ratio_of(*tokens, *prices, pool_id, currency_id) {
                None => None,
                Some(ratio) => Some(
                    SyntheticPoolState {
                        collateral_ratio: ratio,
                        is_safe: spec_is_safe_ratio(tokens.spec_liquidation_ratio(currency_id).spec_parts(), ratio.inner),
                    },
                ),
            },
    {
        let ratio = self.collateral_ratio(tokens, prices, pool_id, currency_id)?;
        let is_safe = self.is_safe_collateral_ratio(tokens, currency_id, ratio);
        Some(SyntheticPoolState { collateral_ratio: ratio, is_safe })
    }

    fn mint_checks(
        &self,
        tokens: &SyntheticTokens,
        pools: &SyntheticLiquidityPools,
        prices: &Prices,
        pool_id: LiquidityPoolId,
        currency_id: CurrencyId,
        collateral: Balance,
        max_price: Price,
    ) -> (r: Result<(Balance, Balance), SyntheticError>)
        requires
            tokens.wf(),
            pools.wf(),
            prices.wf(),
        ensures
            r == self.mint_quote(*tokens, *pools, *prices, pool_id, currency_id, collateral, max_price),
    {
        if !tokens.is_synthetic_currency(currency_id) {
            return Err(SyntheticError::NotValidSyntheticCurrencyId);
        }
        if !pools.can_mint(pool_id, currency_id) {
            return Err(SyntheticError::CannotMintInPool);
        }
        let price = match prices.get_price(currency_id, self.collateral_currency) {
            Some(p) => p,
            None => {
                return Err(SyntheticError::NoPrice);
            },
        };
        let ask_price = self.ask_price(pools, pool_id, currency_id, price, max_price)?;
        let synthetic = match UFixed::checked_from_rational(collateral, ask_price.inner) {
            Some(x) => x.inner,
            None => {
                return Err(SyntheticError::NumOverflow);
            },
        };
        let synthetic_value = match price.checked_mul_int(synthetic) {
            Some(v) => v,
            None => {
                return Err(SyntheticError::NumOverflow);
            },
        };
        let additional = self.additional_collateral_amount(
            pools,
            pool_id,
            currency_id,
            collateral,
            synthetic_value,
        )?;
        Ok((synthetic, additional))
    }

    /// Mints synthetic `currency_id` for `who` in pool `pool_id` with `collateral`, at an ask
    /// price of at most `max_price`; the pool adds the collateral its ratio requires.
    /// Returns the synthetic amount minted.
    pub fn mint(
        &self,
        tokens: &mut SyntheticTokens,
        pools: &mut SyntheticLiquidityPools,
        ledger: &mut Ledger,
        prices: &Prices,
        who: AccountId,
        pool_id: LiquidityPoolId,
        currency_id: CurrencyId,
        collateral: Balance,
        max_price: Price,
    ) -> (r: Result<Balance, DispatchError>)
        requires
            old(tokens).wf(),
            old(pools).wf(),
            old(ledger).wf(),
            prices.wf(),
        ensures
            final(tokens).wf(),
            final(pools).wf(),
            final(ledger).wf(),
            old(ledger).same_reserved(&*final(ledger)),
            final(tokens).same_config(&*old(tokens)),
            ({
                let q = self.mint_quote(
                    *old(tokens),
                    *old(pools),
                    *prices,
                    pool_id,
                    currency_id,
                    collateral,
                    max_price,
                );
                let sa = old(tokens).spec_account();
                let base = old(pools).spec_base();
                let b0 = old(ledger).view();
                let cc = self.collateral_currency;
                &&& q is Err ==> r == Err::<Balance, DispatchError>(
                    DispatchError::SyntheticProtocol(q->Err_0),
                )
                &&& q is Ok ==> {
                    let synthetic = q->Ok_0.0;
                    let additional = q->Ok_0.1;
                    let b1 = after_transfer(b0, cc, who, sa, collateral);
                    let b2 = after_transfer(b1, base.spec_currency(), base.spec_account(), sa, additional);
                    let ok1 = transfer_ok(b0, cc, who, sa, collateral);
                    let ok2 = pool_withdraw_ok(base, b1, pool_id, sa, additional);
                    let ok3 = deposit_ok(b2, currency_id, who, synthetic);
                    &&& r is Ok && separate_accounts(who, sa, base, cc, currency_id)
                        && old(tokens).position(pool_id, currency_id).collateral + collateral + additional
                        <= u128::MAX ==> locked_follows_position(
                        b0,
                        final(ledger).view(),
                        sa,
                        cc,
                        old(tokens).position(pool_id, currency_id),
                        final(tokens).position(pool_id, currency_id),
                    )
                    &&& r is Ok <==> ok1 && ok2 && ok3
                    &&& !ok1 ==> r == Err::<Balance, DispatchError>(transfer_error(b0, cc, who, collateral))
                    &&& ok1 && !ok2 ==> r == Err::<Balance, DispatchError>(
                        DispatchError::SyntheticProtocol(SyntheticError::InsufficientLiquidityInPool),
                    )
                    &&& ok1 && ok2 && !ok3 ==> r == Err::<Balance, DispatchError>(
                        DispatchError::Tokens(crate::error::TokenError::BalanceOverflow),
                    )
                    &&& r is Ok ==> {
                        &&& r->Ok_0 == synthetic
                        &&& final(ledger).view() == after_deposit(b2, currency_id, who, synthetic)
                        &&& pools_after(base, final(pools).spec_base(), pool_id, base.spec_liquidity(pool_id) - additional)
                        &&& final(tokens).position(pool_id, currency_id) == (crate::synthetic_tokens::Position {
                            collateral: spec_saturate_u128(
                                old(tokens).position(pool_id, currency_id).collateral + collateral + additional,
                            ),
                            synthetic: spec_saturate_u128(
                                old(tokens).position(pool_id, currency_id).synthetic + synthetic,
                            ),
                        })
                        &&& forall|p: LiquidityPoolId, c: CurrencyId|
                            !(p == pool_id && c == currency_id) ==> #[trigger] final(tokens).position(p, c)
                                == old(tokens).position(p, c)
                    }
                }
                &&& r is Err ==> {
                    &&& final(ledger).view() == old(ledger).view()
                    &&& final(pools).spec_base().same_state(&base)
                    &&& forall|p: LiquidityPoolId, c: CurrencyId| #[trigger] final(tokens).position(p, c)
                        == old(tokens).position(p, c)
                }
            }),
            forall|c: CurrencyId| #[trigger] final(tokens).ratio(c) == old(tokens).ratio(c),
            forall|p: LiquidityPoolId, c: CurrencyId| #[trigger] final(pools).stored_option(p, c)
                == old(pools).stored_option(p, c),
            forall|c: CurrencyId| #[trigger] final(pools).spec_max_spread(c) == old(pools).spec_max_spread(c),
            final(pools).spec_min_ratio() == old(pools).spec_min_ratio(),
            final(pools).spec_update_origin() == old(pools).spec_update_origin(),
    {
        let (synthetic, additional) = match self.mint_checks(
            tokens,
            pools,
            prices,
            pool_id,
            currency_id,
            collateral,
            max_price,
        ) {
            Ok(x) => x,
            Err(e) => {
                return Err(syn_err(e));
            },
        };
        let ghost p0 = *pools;
        let ghost t0 = *tokens;
        let ghost l0 = *ledger;
        proof {
            pools.lemma_parts();
        }
        let saved_ledger = ledger.snapshot();
        let saved_pools = pools.base.save_pools();
        let ghost base0 = pools.base;
        let sa = tokens.account_id();
        ledger.transfer(self.collateral_currency, who, sa, collateral)?;
        let ghost b1 = ledger.view();
        if pools.base.withdraw_liquidity_to(ledger, sa, pool_id, additional).is_err() {
            *ledger = saved_ledger;
            proof {
                pools.lemma_parts();
                SyntheticLiquidityPools::lemma_same_options(&*pools, &p0);
                assert(pools.spec_base().same_state(&base0));
            }
            return Err(syn_err(SyntheticError::InsufficientLiquidityInPool));
        }
        let ghost base1 = pools.base;
        let ghost b2 = ledger.view();
        if let Err(e) = ledger.deposit(currency_id, who, synthetic) {
            *ledger = saved_ledger;
            pools.base.restore_pools(saved_pools, Ghost(base0));
            proof {
                pools.lemma_parts();
                SyntheticLiquidityPools::lemma_same_options(&*pools, &p0);
            }
            return Err(e);
        }
        tokens.add_position(pool_id, currency_id, collateral + additional, synthetic);
        proof {
            pools.lemma_parts();
            SyntheticLiquidityPools::lemma_same_options(&*pools, &p0);
        }
        Ok(synthetic)
    }

    fn redeem_checks(
        &self,
        tokens: &SyntheticTokens,
        pools: &SyntheticLiquidityPools,
        prices: &Prices,
        pool_id: LiquidityPoolId,
        currency_id: CurrencyId,
        synthetic: Balance,
        min_price: Price,
    ) -> (r: Result<(Balance, Balance, Balance), SyntheticError>)
        requires
            tokens.wf(),
            pools.wf(),
            prices.wf(),
            bid_spread_within_price(*pools, *prices, pool_id, currency_id, self.collateral_currency),
        ensures
            r == self.redeem_quote(*tokens, *pools, *prices, pool_id, currency_id, synthetic, min_price),
    {
        let price = match prices.get_price(currency_id, self.collateral_currency) {
            Some(p) => p,
            None => {
                return Err(SyntheticError::NoPrice);
            },
        };
        let bid_price = self.bid_price(pools, pool_id, currency_id, price, Some(min_price))?;
        let redeemed = match bid_price.checked_mul_int(synthetic) {
            Some(v) => v,
            None => {
                return Err(SyntheticError::NumOverflow);
            },
        };
        let (delta, refund) = self.collateral_change_on_remove_position(
            tokens,
            pools,
            pool_id,
            currency_id,
            price,
            synthetic,
            redeemed,
        )?;
        Ok((redeemed, delta, refund))
    }

    /// Redeems `synthetic` of `currency_id` that `who` holds, for collateral from pool
    /// `pool_id` at a bid price of at least `min_price`. Returns the collateral paid out.
    pub fn redeem(
        &self,
        tokens: &mut SyntheticTokens,
        pools: &mut SyntheticLiquidityPools,
        ledger: &mut Ledger,
        prices: &Prices,
        who: AccountId,
        pool_id: LiquidityPoolId,
        currency_id: CurrencyId,
        synthetic: Balance,
        min_price: Price,
    ) -> (r: Result<Balance, DispatchError>)
        requires
            old(tokens).wf(),
            old(pools).wf(),
            old(ledger).wf(),
            prices.wf(),
            bid_spread_within_price(*old(pools), *prices, pool_id, currency_id, self.collateral_currency),
        ensures
            final(tokens).wf(),
            final(pools).wf(),
            final(ledger).wf(),
            old(ledger).same_reserved(&*final(ledger)),
            final(tokens).same_config(&*old(tokens)),
            ({
                let valid = old(tokens).spec_synthetic_currency_ids().contains(currency_id);
                let b0 = old(ledger).view();
                let ok0 = withdraw_ok(b0, currency_id, who, synthetic);
                let q = self.redeem_quote(*old(tokens), *old(pools), *prices, pool_id, currency_id, synthetic, min_price);
                let sa = old(tokens).spec_account();
                let base = old(pools).spec_base();
                let cc = self.collateral_currency;
                &&& !valid ==> r == Err::<Balance, DispatchError>(
                    DispatchError::SyntheticProtocol(SyntheticError::NotValidSyntheticCurrencyId),
                )
                &&& valid && !ok0 ==> r == Err::<Balance, DispatchError>(
                    DispatchError::Tokens(crate::error::TokenError::BalanceTooLow),
                )
                &&& valid && ok0 && q is Err ==> r == Err::<Balance, DispatchError>(
                    DispatchError::SyntheticProtocol(q->Err_0),
                )
                &&& !(valid && ok0 && q is Ok) ==> r is Err
                &&& valid && ok0 && q is Ok ==> {
                    let redeemed = q->Ok_0.0;
                    let delta = q->Ok_0.1;
                    let refund = q->Ok_0.2;
                    let b1 = after_withdraw(b0, currency_id, who, synthetic);
                    let ok2 = transfer_ok(b1, cc, sa, who, redeemed);
                    let b2 = after_transfer(b1, cc, sa, who, redeemed);
                    let ok3 = pool_deposit_ok(base, b2, pool_id, sa, refund);
                    &&& r is Ok && separate_accounts(who, sa, base, cc, currency_id) && delta <= old(tokens).position(
                        pool_id,
                        currency_id,
                    ).collateral ==> locked_follows_position(
                        b0,
                        final(ledger).view(),
                        sa,
                        cc,
                        old(tokens).position(pool_id, currency_id),
                        final(tokens).position(pool_id, currency_id),
                    )
                    &&& r is Ok <==> ok2 && ok3
                    &&& r is Err ==> r == Err::<Balance, DispatchError>(
                        DispatchError::SyntheticProtocol(SyntheticError::InsufficientLockedCollateral),
                    )
                    &&& r is Ok ==> {
                        &&& r->Ok_0 == redeemed
                        &&& final(ledger).view() == after_transfer(b2, base.spec_currency(), sa, base.spec_account(), refund)
                        &&& pools_after(base, final(pools).spec_base(), pool_id, base.spec_liquidity(pool_id) + refund)
                        &&& final(tokens).position(pool_id, currency_id) == (crate::synthetic_tokens::Position {
                            collateral: spec_saturate_u128(old(tokens).position(pool_id, currency_id).collateral - delta),
                            synthetic: spec_saturate_u128(old(tokens).position(pool_id, currency_id).synthetic - synthetic),
                        })
                        &&& forall|p: LiquidityPoolId, c: CurrencyId|
                            !(p == pool_id && c == currency_id) ==> #[trigger] final(tokens).position(p, c)
                                == old(tokens).position(p, c)
                    }
                }
                &&& r is Err ==> {
                    &&& final(ledger).view() == old(ledger).view()
                    &&& final(pools).spec_base().same_state(&base)
                    &&& forall|p: LiquidityPoolId, c: CurrencyId| #[trigger] final(tokens).position(p, c)
                        == old(tokens).position(p, c)
                }
            }),
            forall|c: CurrencyId| #[trigger] final(tokens).ratio(c) == old(tokens).ratio(c),
            forall|p: LiquidityPoolId, c: CurrencyId| #[trigger] final(pools).stored_option(p, c)
                == old(pools).stored_option(p, c),
            forall|c: CurrencyId| #[trigger] final(pools).spec_max_spread(c) == old(pools).spec_max_spread(c),
            final(pools).spec_min_ratio() == old(pools).spec_min_ratio(),
            final(pools).spec_update_origin() == old(pools).spec_update_origin(),
    {
        if !tokens.is_synthetic_currency(currency_id) {
            return Err(syn_err(SyntheticError::NotValidSyntheticCurrencyId));
        }
        let ghost p0 = *pools;
        proof {
            pools.lemma_parts();
        }
        let saved_ledger = ledger.snapshot();
        let saved_pools = pools.base.save_pools();
        let ghost base0 = pools.base;
        ledger.withdraw(currency_id, who, synthetic)?;
        let (redeemed, delta, refund) = match self.redeem_checks(
            tokens,
            pools,
            prices,
            pool_id,
            currency_id,
            synthetic,
            min_price,
        ) {
            Ok(x) => x,
            Err(e) => {
                *ledger = saved_ledger;
                return Err(syn_err(e));
            },
        };
        let sa = tokens.account_id();
        if ledger.transfer(self.collateral_currency, sa, who, redeemed).is_err() {
            *ledger = saved_ledger;
            return Err(syn_err(SyntheticError::InsufficientLockedCollateral));
        }
        if pools.base.deposit_liquidity(ledger, sa, pool_id, refund).is_err() {
            *ledger = saved_ledger;
            proof {
                pools.lemma_parts();
                SyntheticLiquidityPools::lemma_same_options(&*pools, &p0);
            }
            return Err(syn_err(SyntheticError::InsufficientLockedCollateral));
        }
        tokens.remove_position(pool_id, currency_id, delta, synthetic);
        proof {
            pools.lemma_parts();
            SyntheticLiquidityPools::lemma_same_options(&*pools, &p0);
        }
        Ok(redeemed)
    }

    fn liquidate_checks(
        &self,
        tokens: &SyntheticTokens,
        pools: &SyntheticLiquidityPools,
        prices: &Prices,
        pool_id: LiquidityPoolId,
        currency_id: CurrencyId,
        synthetic: Balance,
    ) -> (r: Result<(Balance, Balance, Balance, Balance), SyntheticError>)
        requires
            tokens.wf(),
            pools.wf(),
            prices.wf(),
            bid_spread_within_price(*pools, *prices, pool_id, currency_id, self.collateral_currency),
        ensures
            r == self.liquidate_quote(*tokens, *pools, *prices, pool_id, currency_id, synthetic),
    {
        if !tokens.is_synthetic_currency(currency_id) {
            return Err(SyntheticError::NotValidSyntheticCurrencyId);
        }
        let price = match prices.get_price(currency_id, self.collateral_currency) {
            Some(p) => p,
            None => {
                return Err(SyntheticError::NoPrice);
            },
        };
        let bid_price = self.bid_price(pools, pool_id, currency_id, price, None)?;
        let collateral = match bid_price.checked_mul_int(synthetic) {
            Some(v) => v,
            None => {
                return Err(SyntheticError::NumOverflow);
            },
        };
        let (delta, refund, incentive) = self.collateral_change_on_liquidation(
            tokens,
            pool_id,
            currency_id,
            price,
            synthetic,
            collateral,
        )?;
        Ok((collateral, delta, refund, incentive))
    }

    /// Liquidates `synthetic` of `currency_id` that `who` holds in pool `pool_id`: `who` gets
    /// the collateral at the bid price plus an incentive, the pool gets a refund. Fails while
    /// the position is safe. Returns the collateral without the incentive.
    pub fn liquidate(
        &self,
        tokens: &mut SyntheticTokens,
        pools: &mut SyntheticLiquidityPools,
        ledger: &mut Ledger,
        prices: &Prices,
        who: AccountId,
        pool_id: LiquidityPoolId,
        currency_id: CurrencyId,
        synthetic: Balance,
    ) -> (r: Result<Balance, DispatchError>)
        requires
            old(tokens).wf(),
            old(pools).wf(),
            old(ledger).wf(),
            prices.wf(),
            bid_spread_within_price(*old(pools), *prices, pool_id, currency_id, self.collateral_currency),
        ensures
            final(tokens).wf(),
            final(pools).wf(),
            final(ledger).wf(),
            old(ledger).same_reserved(&*final(ledger)),
            final(tokens).same_config(&*old(tokens)),
            ({
                let q = self.liquidate_quote(*old(tokens), *old(pools), *prices, pool_id, currency_id, synthetic);
                let b0 = old(ledger).view();
                let sa = old(tokens).spec_account();
                let base = old(pools).spec_base();
                let cc = self.collateral_currency;
                &&& q is Err ==> r == Err::<Balance, DispatchError>(DispatchError::SyntheticProtocol(q->Err_0))
                &&& q is Ok ==> {
                    let collateral = q->Ok_0.0;
                    let delta = q->Ok_0.1;
                    let refund = q->Ok_0.2;
                    let incentive = q->Ok_0.3;
                    let ok1 = withdraw_ok(b0, currency_id, who, synthetic);
                    let b1 = after_withdraw(b0, currency_id, who, synthetic);
                    let ok_sum = collateral + incentive <= u128::MAX;
                    let paid = (collateral + incentive) as u128;
                    let ok2 = transfer_ok(b1, cc, sa, who, paid);
                    let b2 = after_transfer(b1, cc, sa, who, paid);
                    let ok3 = pool_deposit_ok(base, b2, pool_id, sa, refund);
                    &&& r is Ok && separate_accounts(who, sa, base, cc, currency_id) && delta <= old(tokens).position(
                        pool_id,
                        currency_id,
                    ).collateral ==> locked_follows_position(
                        b0,
                        final(ledger).view(),
                        sa,
                        cc,
                        old(tokens).position(pool_id, currency_id),
                        final(tokens).position(pool_id, currency_id),
                    )
                    &&& r is Ok <==> ok1 && ok_sum && ok2 && ok3
                    &&& !ok1 ==> r == Err::<Balance, DispatchError>(
                        DispatchError::Tokens(crate::error::TokenError::BalanceTooLow),
                    )
                    &&& ok1 && !ok_sum ==> r == Err::<Balance, DispatchError>(
                        DispatchError::SyntheticProtocol(SyntheticError::NumOverflow),
                    )
                    &&& ok1 && ok_sum && !(ok2 && ok3) ==> r == Err::<Balance, DispatchError>(
                        DispatchError::SyntheticProtocol(SyntheticError::InsufficientLockedCollateral),
                    )
                    &&& r is Ok ==> {
                        &&& r->Ok_0 == collateral
                        &&& final(ledger).view() == after_transfer(b2, base.spec_currency(), sa, base.spec_account(), refund)
                        &&& pools_after(base, final(pools).spec_base(), pool_id, base.spec_liquidity(pool_id) + refund)
                        &&& final(tokens).position(pool_id, currency_id) == (crate::synthetic_tokens::Position {
                            collateral: spec_saturate_u128(old(tokens).position(pool_id, currency_id).collateral - delta),
                            synthetic: spec_saturate_u128(old(tokens).position(pool_id, currency_id).synthetic - synthetic),
                        })
                        &&& forall|p: LiquidityPoolId, c: CurrencyId|
                            !(p == pool_id && c == currency_id) ==> #[trigger] final(tokens).position(p, c)
                                == old(tokens).position(p, c)
                    }
                }
                &&& r is Err ==> {
                    &&& final(ledger).view() == old(ledger).view()
                    &&& final(pools).spec_base().same_state(&base)
                    &&& forall|p: LiquidityPoolId, c: CurrencyId| #[trigger] final(tokens).position(p, c)
                        == old(tokens).position(p, c)
                }
            }),
            forall|c: CurrencyId| #[trigger] final(tokens).ratio(c) == old(tokens).ratio(c),
            forall|p: LiquidityPoolId, c: CurrencyId| #[trigger] final(pools).stored_option(p, c)
                == old(pools).stored_option(p, c),
            forall|c: CurrencyId| #[trigger] final(pools).spec_max_spread(c) == old(pools).spec_max_spread(c),
            final(pools).spec_min_ratio() == old(pools).spec_min_ratio(),
            final(pools).spec_update_origin() == old(pools).spec_update_origin(),
    {
        let (collateral, delta, refund, incentive) = match self.liquidate_checks(
            tokens,
            pools,
            prices,
            pool_id,
            currency_id,
            synthetic,
        ) {
            Ok(x) => x,
            Err(e) => {
                return Err(syn_err(e));
            },
        };
        let ghost p0 = *pools;
        proof {
            pools.lemma_parts();
        }
        let saved_ledger = ledger.snapshot();
        ledger.withdraw(currency_id, who, synthetic)?;
        let paid = match collateral.checked_add(incentive) {
            Some(v) => v,
            None => {
                *ledger = saved_ledger;
                return Err(syn_err(SyntheticError::NumOverflow));
            },
        };
        let sa = tokens.account_id();
        if ledger.transfer(self.collateral_currency, sa, who, paid).is_err() {
            *ledger = saved_ledger;
            return Err(syn_err(SyntheticError::InsufficientLockedCollateral));
        }
        if pools.base.deposit_liquidity(ledger, sa, pool_id, refund).is_err() {
            *ledger = saved_ledger;
            proof {
                pools.lemma_parts();
                SyntheticLiquidityPools::lemma_same_options(&*pools, &p0);
            }
            return Err(syn_err(SyntheticError::InsufficientLockedCollateral));
        }
        tokens.remove_position(pool_id, currency_id, delta, synthetic);
        proof {
            pools.lemma_parts();
            SyntheticLiquidityPools::lemma_same_options(&*pools, &p0);
        }
        Ok(collateral)
    }

    /// Adds `collateral` of `who` to the position of `currency_id` in pool `pool_id`, through
    /// the pool.
    pub fn add_collateral(
        &self,
        tokens: &mut SyntheticTokens,
        pools: &mut SyntheticLiquidityPools,
        ledger: &mut Ledger,
        who: AccountId,
        pool_id: LiquidityPoolId,
        currency_id: CurrencyId,
        collateral: Balance,
    ) -> (r: Result<(), DispatchError>)
        requires
            old(tokens).wf(),
            old(pools).wf(),
            old(ledger).wf(),
        ensures
            final(tokens).wf(),
            final(pools).wf(),
            final(ledger).wf(),
            old(ledger).same_reserved(&*final(ledger)),
            final(tokens).same_config(&*old(tokens)),
            ({
                let valid = old(tokens).spec_synthetic_currency_ids().contains(currency_id);
                let b0 = old(ledger).view();
                let sa = old(tokens).spec_account();
                let base = old(pools).spec_base();
                let ok1 = pool_deposit_ok(base, b0, pool_id, who, collateral);
                let b1 = after_transfer(b0, base.spec_currency(), who, base.spec_account(), collateral);
                let ok2 = transfer_ok(b1, base.spec_currency(), base.spec_account(), sa, collateral);
                &&& r is Ok && separate_accounts(who, sa, base, base.spec_currency(), currency_id) && old(
                    tokens,
                ).position(pool_id, currency_id).collateral + collateral <= u128::MAX ==> locked_follows_position(
                    b0,
                    final(ledger).view(),
                    sa,
                    base.spec_currency(),
                    old(tokens).position(pool_id, currency_id),
                    final(tokens).position(pool_id, currency_id),
                )
                &&& !valid ==> r == Err::<(), DispatchError>(
                    DispatchError::SyntheticProtocol(SyntheticError::NotValidSyntheticCurrencyId),
                )
                &&& r is Ok <==> valid && ok1 && ok2
                &&& valid && !ok1 ==> r == Err::<(), DispatchError>(pool_deposit_error(base, b0, pool_id, who, collateral))
                &&& valid && ok1 && !ok2 ==> r == Err::<(), DispatchError>(
                    transfer_error(b1, base.spec_currency(), base.spec_account(), collateral),
                )
                &&& r is Ok ==> {
                    &&& final(ledger).view() == after_transfer(b1, base.spec_currency(), base.spec_account(), sa, collateral)
                    &&& final(pools).spec_base().same_state(&base)
                    &&& final(tokens).position(pool_id, currency_id) == (crate::synthetic_tokens::Position {
                        collateral: spec_saturate_u128(old(tokens).position(pool_id, currency_id).collateral + collateral),
                        synthetic: old(tokens).position(pool_id, currency_id).synthetic,
                    })
                    &&& forall|p: LiquidityPoolId, c: CurrencyId|
                        !(p == pool_id && c == currency_id) ==> #[trigger] final(tokens).position(p, c)
                            == old(tokens).position(p, c)
                }
                &&& r is Err ==> {
                    &&& final(ledger).view() == old(ledger).view()
                    &&& final(pools).spec_base().same_state(&base)
                    &&& forall|p: LiquidityPoolId, c: CurrencyId| #[trigger] final(tokens).position(p, c)
                        == old(tokens).position(p, c)
                }
            }),
            forall|c: CurrencyId| #[trigger] final(tokens).ratio(c) == old(tokens).ratio(c),
            forall|p: LiquidityPoolId, c: CurrencyId| #[trigger] final(pools).stored_option(p, c)
                == old(pools).stored_option(p, c),
            forall|c: CurrencyId| #[trigger] final(pools).spec_max_spread(c) == old(pools).spec_max_spread(c),
            final(pools).spec_min_ratio() == old(pools).spec_min_ratio(),
            final(pools).spec_update_origin() == old(pools).spec_update_origin(),
    {
        if !tokens.is_synthetic_currency(currency_id) {
            return Err(syn_err(SyntheticError::NotValidSyntheticCurrencyId));
        }
        let ghost p0 = *pools;
        proof {
            pools.lemma_parts();
        }
        let saved_ledger = ledger.snapshot();
        let saved_pools = pools.base.save_pools();
        let ghost base0 = pools.base;
        if let Err(e) = pools.base.deposit_liquidity(ledger, who, pool_id, collateral) {
            proof {
                pools.lemma_parts();
                SyntheticLiquidityPools::lemma_same_options(&*pools, &p0);
            }
            return Err(e);
        }
        let sa = tokens.account_id();
        if let Err(e) = pools.base.withdraw_liquidity_to(ledger, sa, pool_id, collateral) {
            *ledger = saved_ledger;
            pools.base.restore_pools(saved_pools, Ghost(base0));
            proof {
                pools.lemma_parts();
                SyntheticLiquidityPools::lemma_same_options(&*pools, &p0);
            }
            return Err(e);
        }
        tokens.add_position(pool_id, currency_id, collateral, 0);
        proof {
            pools.lemma_parts();
            SyntheticLiquidityPools::lemma_same_options(&*pools, &p0);
            BaseLiquidityPools::lemma_balance_round_trip(base0, pools.base, pool_id);
        }
        Ok(())
    }

    /// Pays the owner `who` of pool `pool_id` the collateral of `currency_id` beyond what the
    /// position requires. Returns the amount paid.
    pub fn withdraw_collateral(
        &self,
        tokens: &mut SyntheticTokens,
        pools: &mut SyntheticLiquidityPools,
        ledger: &mut Ledger,
        prices: &Prices,
        who: AccountId,
        pool_id: LiquidityPoolId,
        currency_id: CurrencyId,
    ) -> (r: Result<Balance, DispatchError>)
        requires
            old(tokens).wf(),
            old(pools).wf(),
            old(ledger).wf(),
            prices.wf(),
        ensures
            final(tokens).wf(),
            final(pools).wf(),
            final(ledger).wf(),
            old(ledger).same_reserved(&*final(ledger)),
            final(tokens).same_config(&*old(tokens)),
            ({
                let valid = old(tokens).spec_synthetic_currency_ids().contains(currency_id);
                let base = old(pools).spec_base();
                let owner = base.spec_is_owner(pool_id, who);
                let price = prices.price(currency_id, self.collateral_currency);
                let b0 = old(ledger).view();
                let sa = old(tokens).spec_account();
                &&& !valid ==> r == Err::<Balance, DispatchError>(
                    DispatchError::SyntheticProtocol(SyntheticError::NotValidSyntheticCurrencyId),
                )
                &&& valid && !owner ==> r == Err::<Balance, DispatchError>(
                    DispatchError::SyntheticProtocol(SyntheticError::NoPermission),
                )
                &&& valid && owner && price is None ==> r == Err::<Balance, DispatchError>(
                    DispatchError::SyntheticProtocol(SyntheticError::NoPrice),
                )
                &&& !(valid && owner && price is Some) ==> r is Err
                &&& valid && owner && price is Some ==> {
                    let q = spec_change_on_remove(
                        old(tokens).position(pool_id, currency_id).collateral,
                        old(tokens).position(pool_id, currency_id).synthetic,
                        old(pools).spec_additional_collateral_ratio(pool_id, currency_id).spec_parts(),
                        price->0,
                        0,
                        0,
                    );
                    &&& q is Err ==> r == Err::<Balance, DispatchError>(DispatchError::SyntheticProtocol(q->Err_0))
                    &&& q is Ok ==> {
                        let delta = q->Ok_0.0;
                        let refund = q->Ok_0.1;
                        let ok1 = pool_deposit_ok(base, b0, pool_id, sa, refund);
                        let b1 = after_transfer(b0, base.spec_currency(), sa, base.spec_account(), refund);
                        let ok2 = transfer_ok(b1, base.spec_currency(), base.spec_account(), who, refund);
                        &&& r is Ok && separate_accounts(who, sa, base, base.spec_currency(), currency_id)
                            ==> locked_follows_position(
                            b0,
                            final(ledger).view(),
                            sa,
                            base.spec_currency(),
                            old(tokens).position(pool_id, currency_id),
                            final(tokens).position(pool_id, currency_id),
                        )
                        &&& r is Ok <==> ok1 && ok2
                        &&& !ok1 ==> r == Err::<Balance, DispatchError>(
                            DispatchError::SyntheticProtocol(SyntheticError::InsufficientLockedCollateral),
                        )
                        &&& ok1 && !ok2 ==> r == Err::<Balance, DispatchError>(
                            transfer_error(b1, base.spec_currency(), base.spec_account(), refund),
                        )
                        &&& r is Ok ==> {
                            &&& r->Ok_0 == refund
                            &&& final(ledger).view() == after_transfer(b1, base.spec_currency(), base.spec_account(), who, refund)
                            &&& final(pools).spec_base().same_state(&base)
                            &&& final(tokens).position(pool_id, currency_id) == (crate::synthetic_tokens::Position {
                                collateral: spec_saturate_u128(old(tokens).position(pool_id, currency_id).collateral - delta),
                                synthetic: old(tokens).position(pool_id, currency_id).synthetic,
                            })
                            &&& forall|p: LiquidityPoolId, c: CurrencyId|
                                !(p == pool_id && c == currency_id) ==> #[trigger] final(tokens).position(p, c)
                                    == old(tokens).position(p, c)
                        }
                    }
                }
                &&& r is Err ==> {
                    &&& final(ledger).view() == old(ledger).view()
                    &&& final(pools).spec_base().same_state(&base)
                    &&& forall|p: LiquidityPoolId, c: CurrencyId| #[trigger] final(tokens).position(p, c)
                        == old(tokens).position(p, c)
                }
            }),
            forall|c: CurrencyId| #[trigger] final(tokens).ratio(c) == old(tokens).ratio(c),
            forall|p: LiquidityPoolId, c: CurrencyId| #[trigger] final(pools).stored_option(p, c)
                == old(pools).stored_option(p, c),
            forall|c: CurrencyId| #[trigger] final(pools).spec_max_spread(c) == old(pools).spec_max_spread(c),
            final(pools).spec_min_ratio() == old(pools).spec_min_ratio(),
            final(pools).spec_update_origin() == old(pools).spec_update_origin(),
    {
        if !tokens.is_synthetic_currency(currency_id) {
            return Err(syn_err(SyntheticError::NotValidSyntheticCurrencyId));
        }
        proof {
            pools.lemma_parts();
        }
        if !pools.base.is_owner(pool_id, who) {
            return Err(syn_err(SyntheticError::NoPermission));
        }
        let price = match prices.get_price(currency_id, self.collateral_currency) {
            Some(p) => p,
            None => {
                return Err(syn_err(SyntheticError::NoPrice));
            },
        };
        let (delta, refund) = match self.collateral_change_on_remove_position(
            tokens,
            pools,
            pool_id,
            currency_id,
            price,
            0,
            0,
        ) {
            Ok(x) => x,
            Err(e) => {
                return Err(syn_err(e));
            },
        };
        let ghost p0 = *pools;
        proof {
            pools.lemma_parts();
        }
        let saved_ledger = ledger.snapshot();
        let saved_pools = pools.base.save_pools();
        let ghost base0 = pools.base;
        let sa = tokens.account_id();
        if pools.base.deposit_liquidity(ledger, sa, pool_id, refund).is_err() {
            proof {
                pools.lemma_parts();
                SyntheticLiquidityPools::lemma_same_options(&*pools, &p0);
            }
            return Err(syn_err(SyntheticError::InsufficientLockedCollateral));
        }
        if let Err(e) = pools.base.withdraw_liquidity_to(ledger, who, pool_id, refund) {
            *ledger = saved_ledger;
            pools.base.restore_pools(saved_pools, Ghost(base0));
            proof {
                pools.lemma_parts();
                SyntheticLiquidityPools::lemma_same_options(&*pools, &p0);
            }
            return Err(e);
        }
        tokens.remove_position(pool_id, currency_id, delta, 0);
        proof {
            pools.lemma_parts();
            SyntheticLiquidityPools::lemma_same_options(&*pools, &p0);
            BaseLiquidityPools::lemma_balance_round_trip(base0, pools.base, pool_id);
        }
        Ok(refund)
    }
}

/// A share of at most one of an amount is at most the amount.
pub proof fn lemma_share_at_most_whole(a: nat, b: nat)
    requires
        a <= ACCURACY,
    ensures
        crate::fixed::mul_div(a, b, ACCURACY as nat) <= b,
{
    let d = ACCURACY as nat;
    let p = a * b;
    assert(p <= d * b) by (nonlinear_arith)
        requires
            a <= d,
            p == a * b,
    ;
    assert(p / d <= b) by (nonlinear_arith)
        requires
            p <= d * b,
            d > 0,
    ;
    if p / d == b {
        assert(p % d == 0) by (nonlinear_arith)
            requires
                p <= d * b,
                p / d == b,
                d > 0,
        ;
    }
}

/// Redeeming `burned` synthetic from a position that, after the redeem, holds less collateral
/// than the remaining synthetic is worth at `price` with the additional ratio on top, takes
/// exactly the redeemed collateral from the position and refunds nothing to the pool.
pub proof fn lemma_redeem_below_required_takes_the_redeemed(
    collateral_position: Balance,
    synthetic_position: Balance,
    ratio_parts: u32,
    price: Price,
    burned: Balance,
    redeemed: Balance,
)
    requires
        burned <= synthetic_position,
        ({
            let value = crate::fixed::mul_div(price.inner as nat, (synthetic_position - burned) as nat, ACCURACY as nat);
            let required = value + spec_permill_mul(ratio_parts as nat, value);
            &&& required <= u128::MAX
            &&& collateral_position < required
        }),
    ensures
        spec_change_on_remove(collateral_position, synthetic_position, ratio_parts, price, burned, redeemed) == Ok::<
            (Balance, Balance),
            SyntheticError,
        >((redeemed, 0)),
{
}

/// Whatever a redeem takes from a position is the collateral paid out for the burned synthetic
/// plus what goes back to the pool; where the position held at least its required collateral,
/// exactly that required collateral stays in it.
pub proof fn lemma_redeem_splits_the_position_change(
    collateral_position: Balance,
    synthetic_position: Balance,
    ratio_parts: u32,
    price: Price,
    burned: Balance,
    redeemed: Balance,
)
    requires
        spec_change_on_remove(collateral_position, synthetic_position, ratio_parts, price, burned, redeemed) is Ok,
    ensures
        ({
            let (delta, refund) = spec_change_on_remove(
                collateral_position,
                synthetic_position,
                ratio_parts,
                price,
                burned,
                redeemed,
            )->Ok_0;
            let value = crate::fixed::mul_div(price.inner as nat, (synthetic_position - burned) as nat, ACCURACY as nat);
            let required = value + spec_permill_mul(ratio_parts as nat, value);
            &&& delta == redeemed + refund
            &&& required <= collateral_position ==> collateral_position - delta == required
            &&& collateral_position < required ==> refund == 0
        }),
{
}

/// Liquidating a position that holds no more collateral than its synthetic is worth at
/// `price` pays the liquidator exactly the liquidized collateral: no incentive, nothing back
/// to the pool.
pub proof fn lemma_liquidate_under_water_pays_only_the_liquidized(
    collateral_position: Balance,
    synthetic_position: Balance,
    liquidation_parts: u32,
    extreme_parts: u32,
    price: Price,
    burned: Balance,
    liquidized: Balance,
)
    requires
        burned <= synthetic_position,
        liquidized <= collateral_position,
        crate::fixed::mul_div(price.inner as nat, synthetic_position as nat, ACCURACY as nat) <= u128::MAX,
        collateral_position <= crate::fixed::mul_div(price.inner as nat, synthetic_position as nat, ACCURACY as nat),
    ensures
        spec_change_on_liquidation(
            collateral_position,
            synthetic_position,
            liquidation_parts,
            extreme_parts,
            price,
            burned,
            liquidized,
        ) == Ok::<(Balance, Balance, Balance), SyntheticError>((liquidized, 0, 0)),
{
}

/// A liquidation is refused as safe only where the position holds more collateral than its
/// synthetic is worth and its collateral ratio is above `1 + liquidation_ratio`; whatever it
/// takes from the position is the liquidized collateral plus the incentive plus the refund.
pub proof fn lemma_liquidation_refusal_and_split(
    collateral_position: Balance,
    synthetic_position: Balance,
    liquidation_parts: u32,
    extreme_parts: u32,
    price: Price,
    burned: Balance,
    liquidized: Balance,
)
    ensures
        ({
            let r = spec_change_on_liquidation(
                collateral_position,
                synthetic_position,
                liquidation_parts,
                extreme_parts,
                price,
                burned,
                liquidized,
            );
            let value = crate::fixed::mul_div(price.inner as nat, synthetic_position as nat, ACCURACY as nat);
            &&& r == Err::<(Balance, Balance, Balance), SyntheticError>(SyntheticError::StillInSafePosition) ==> {
                &&& value < collateral_position
                &&& spec_ufixed_from_rational(collateral_position, value as u128) is Some
                &&& spec_ufixed_from_rational(collateral_position, value as u128)->0 > liquidation_parts
                    * 1_000_000_000_000 + ACCURACY
            }
            &&& r is Ok ==> r->Ok_0.0 == liquidized + r->Ok_0.2 + r->Ok_0.1
        }),
{
}

} // verus!
