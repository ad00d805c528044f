use laminar::base_pools::BaseLiquidityPools;
use laminar::error::{DispatchError, SyntheticPoolsError};
use laminar::fixed::{Permill, UFixed};
use laminar::ledger::Ledger;
use laminar::primitives::{AccountId, CurrencyId};
use laminar::synthetic_pools::{SyntheticLiquidityPools, SyntheticPoolCurrencyOption};

const ALICE: AccountId = 0;
const BOB: AccountId = 1;
const ROOT: AccountId = 2;
const POOLS_ACCOUNT: AccountId = 100;

fn new_test_ext() -> (SyntheticLiquidityPools, Ledger) {
    let mut ledger = Ledger::new();
    ledger.set_balance(ALICE, CurrencyId::AUSD, 100000);
    let base = BaseLiquidityPools::new(POOLS_ACCOUNT, CurrencyId::AUSD, 0, 1000, ROOT);
    (SyntheticLiquidityPools::new(base, Permill::zero(), ROOT), ledger)
}

fn price(inner: u128) -> UFixed {
    UFixed::from_inner(inner)
}

fn default_option() -> SyntheticPoolCurrencyOption {
    SyntheticPoolCurrencyOption::default()
}

fn owner_of_pool(pools: &SyntheticLiquidityPools, pool_id: u32) -> Option<AccountId> {
    pools.base().pools(pool_id).map(|p| p.owner)
}

#[test]
fn synthetic_should_disable_pool() {
    let (mut pools, _) = new_test_ext();
    assert_eq!(pools.base_mut().create_pool(ALICE), Ok(0));
    assert_eq!(pools.pool_currency_options(0, CurrencyId::AUSD), default_option());
    assert_eq!(pools.set_synthetic_enabled(ALICE, 0, CurrencyId::AUSD, true), Ok(()));
    assert_eq!(
        pools.pool_currency_options(0, CurrencyId::AUSD),
        SyntheticPoolCurrencyOption {
            bid_spread: None,
            ask_spread: None,
            additional_collateral_ratio: None,
            synthetic_enabled: true,
        }
    );
    assert_eq!(pools.base().disable_pool(ALICE, 0), Ok(()));
    pools.on_disable(0);
    assert_eq!(pools.pool_currency_options(0, CurrencyId::AUSD), default_option());
}

#[test]
fn synthetic_should_remove_pool() {
    let (mut pools, mut ledger) = new_test_ext();
    assert_eq!(pools.base_mut().create_pool(ALICE), Ok(0));
    assert_eq!(pools.set_synthetic_enabled(ALICE, 0, CurrencyId::AUSD, true), Ok(()));
    assert_eq!(pools.base_mut().deposit_liquidity(&mut ledger, ALICE, 0, 1000), Ok(()));
    assert_eq!(pools.base().liquidity(0), 1000);
    assert_eq!(pools.base_mut().remove_pool(&mut ledger, ALICE, 0, true), Ok(()));
    pools.on_remove(0);
    assert_eq!(pools.pool_currency_options(0, CurrencyId::AUSD), default_option());
    assert_eq!(owner_of_pool(&pools, 0), None);
    assert_eq!(pools.base().liquidity(0), 0);
}

#[test]
fn synthetic_should_set_spread() {
    let (mut pools, _) = new_test_ext();
    assert_eq!(pools.base_mut().create_pool(ALICE), Ok(0));
    assert_eq!(owner_of_pool(&pools, 0), Some(ALICE));
    assert_eq!(pools.pool_currency_options(0, CurrencyId::AUSD), default_option());
    assert_eq!(pools.set_spread(ALICE, 0, CurrencyId::AUSD, price(80), price(60)), Ok(()));
    let pool_option = SyntheticPoolCurrencyOption {
        bid_spread: Some(price(80)),
        ask_spread: Some(price(60)),
        additional_collateral_ratio: None,
        synthetic_enabled: false,
    };
    assert_eq!(pools.pool_currency_options(0, CurrencyId::AUSD), pool_option);
    assert_eq!(pools.bid_spread(0, CurrencyId::AUSD), Some(price(80)));
    assert_eq!(pools.ask_spread(0, CurrencyId::AUSD), Some(price(60)));
    assert_eq!(
        pools.set_spread(BOB, 0, CurrencyId::AUSD, price(1), price(1)),
        Err(DispatchError::SyntheticLiquidityPools(SyntheticPoolsError::NoPermission))
    );
}

#[test]
fn synthetic_should_set_max_spread() {
    let (mut pools, _) = new_test_ext();
    assert_eq!(pools.base_mut().create_pool(ALICE), Ok(0));
    assert_eq!(owner_of_pool(&pools, 0), Some(ALICE));
    // no max spread
    assert_eq!(pools.set_spread(ALICE, 0, CurrencyId::AUSD, price(100), price(100)), Ok(()));
    // set max spread to 30
    assert_eq!(pools.set_max_spread(ROOT, CurrencyId::AUSD, price(30)), Ok(()));
    // spreads set before are capped
    assert_eq!(pools.bid_spread(0, CurrencyId::AUSD), Some(price(30)));
    assert_eq!(
        pools.set_spread(ALICE, 0, CurrencyId::AUSD, price(32), price(28)),
        Err(DispatchError::SyntheticLiquidityPools(SyntheticPoolsError::SpreadTooHigh))
    );
    assert_eq!(pools.set_spread(ALICE, 0, CurrencyId::AUSD, price(28), price(29)), Ok(()));
    assert_eq!(
        pools.pool_currency_options(0, CurrencyId::AUSD),
        SyntheticPoolCurrencyOption {
            bid_spread: Some(price(28)),
            ask_spread: Some(price(29)),
            additional_collateral_ratio: None,
            synthetic_enabled: false,
        }
    );
    assert_eq!(pools.set_max_spread(ALICE, CurrencyId::AUSD, price(30)), Err(DispatchError::BadOrigin));
}

#[test]
fn synthetic_should_set_additional_collateral_ratio() {
    let (mut pools, _) = new_test_ext();
    assert_eq!(pools.base_mut().create_pool(ALICE), Ok(0));
    assert_eq!(pools.set_min_additional_collateral_ratio(ROOT, Permill::from_percent(120)), Ok(()));
    assert_eq!(
        pools.set_additional_collateral_ratio(ALICE, 0, CurrencyId::AUSD, Some(Permill::from_percent(120))),
        Ok(())
    );
    let pool_option = SyntheticPoolCurrencyOption {
        bid_spread: None,
        ask_spread: None,
        additional_collateral_ratio: Some(Permill::from_percent(120)),
        synthetic_enabled: false,
    };
    assert_eq!(pools.pool_currency_options(0, CurrencyId::AUSD), pool_option);
    assert_eq!(pools.additional_collateral_ratio(0, CurrencyId::AUSD), Permill::from_percent(120));
    assert_eq!(pools.additional_collateral_ratio(0, CurrencyId::FJPY), Permill::from_percent(120));
}

#[test]
fn synthetic_should_fail_set_additional_collateral_ratio() {
    let (mut pools, _) = new_test_ext();
    assert_eq!(pools.base_mut().create_pool(ALICE), Ok(0));
    assert_eq!(pools.additional_collateral_ratio(0, CurrencyId::AUSD), Permill::from_percent(0));

    assert_eq!(pools.set_additional_collateral_ratio(ALICE, 0, CurrencyId::AUSD, None), Ok(()));
    assert_eq!(pools.additional_collateral_ratio(0, CurrencyId::AUSD), Permill::from_percent(0));

    assert_eq!(
        pools.set_additional_collateral_ratio(ALICE, 0, CurrencyId::AUSD, Some(Permill::from_percent(120))),
        Ok(())
    );
    assert_eq!(pools.additional_collateral_ratio(0, CurrencyId::AUSD), Permill::from_percent(120));

    assert_eq!(pools.set_min_additional_collateral_ratio(ROOT, Permill::from_percent(150)), Ok(()));
    assert_eq!(pools.additional_collateral_ratio(0, CurrencyId::AUSD), Permill::from_percent(150));

    assert_eq!(pools.set_min_additional_collateral_ratio(ROOT, Permill::from_percent(100)), Ok(()));
    assert_eq!(pools.additional_collateral_ratio(0, CurrencyId::AUSD), Permill::from_percent(120));
    assert_eq!(pools.additional_collateral_ratio(0, CurrencyId::FJPY), Permill::from_percent(100));

    assert_eq!(
        pools.set_additional_collateral_ratio(BOB, 0, CurrencyId::AUSD, None),
        Err(DispatchError::SyntheticLiquidityPools(SyntheticPoolsError::NoPermission))
    );
}

#[test]
fn synthetic_should_set_synthetic_enabled() {
    let (mut pools, _) = new_test_ext();
    assert_eq!(pools.base_mut().create_pool(ALICE), Ok(0));
    assert_eq!(pools.pool_currency_options(0, CurrencyId::AUSD), default_option());
    assert_eq!(pools.can_mint(0, CurrencyId::AUSD), false);
    assert_eq!(pools.set_synthetic_enabled(ALICE, 0, CurrencyId::AUSD, true), Ok(()));
    let pool_option = SyntheticPoolCurrencyOption {
        bid_spread: None,
        ask_spread: None,
        additional_collateral_ratio: None,
        synthetic_enabled: true,
    };
    assert_eq!(pools.pool_currency_options(0, CurrencyId::AUSD), pool_option);
    assert_eq!(pools.can_mint(0, CurrencyId::AUSD), true);
}

#[test]
fn synthetic_min_ratio_applies_below_it() {
    let (mut pools, _) = new_test_ext();
    assert_eq!(pools.base_mut().create_pool(ALICE), Ok(0));
    assert_eq!(
        pools.set_additional_collateral_ratio(ALICE, 0, CurrencyId::FEUR, Some(Permill::from_percent(10))),
        Ok(())
    );
    assert_eq!(pools.set_min_additional_collateral_ratio(ROOT, Permill::from_percent(20)), Ok(()));
    assert_eq!(pools.additional_collateral_ratio(0, CurrencyId::FEUR), Permill::from_percent(20));
    assert_eq!(pools.set_min_additional_collateral_ratio(BOB, Permill::from_percent(5)), Err(DispatchError::BadOrigin));
    assert_eq!(pools.min_additional_collateral_ratio(), Permill::from_percent(20));
}
