use laminar::arithmetic::fixed_i128_mul_signum;
use laminar::base_pools::BaseLiquidityPools;
use laminar::error::{DispatchError, MarginPoolsError};
use laminar::fixed::{Fixed, Price};
use laminar::ledger::Ledger;
use laminar::margin_pools::{
    MarginLiquidityPools, MarginPoolTradingPairOption, OpenPositionError, ONE_MINUTE,
};
use laminar::primitives::{AccountId, CurrencyId, Leverage, Leverages, SwapRate, TradingPair};

const ALICE: AccountId = 0;
const BOB: AccountId = 1;
const UPDATE_ORIGIN: AccountId = 5;
const POOLS_ACCOUNT: AccountId = 100;
const ACCURACY: i128 = 1_000_000_000_000_000_000;

fn max_swap() -> Fixed {
    Fixed::saturating_from_integer(2)
}

fn new_test_ext() -> (MarginLiquidityPools, Ledger) {
    let mut ledger = Ledger::new();
    ledger.set_balance(ALICE, CurrencyId::AUSD, 100000);
    let base = BaseLiquidityPools::new(POOLS_ACCOUNT, CurrencyId::AUSD, 0, 1000, UPDATE_ORIGIN);
    (MarginLiquidityPools::new(base, max_swap(), 0, UPDATE_ORIGIN), ledger)
}

fn rational(n: i128, d: i128) -> Fixed {
    Fixed::from_inner(n * ACCURACY / d)
}

fn integer(n: i128) -> Fixed {
    Fixed::saturating_from_integer(n)
}

fn swap_rate(pools: &MarginLiquidityPools, pair: TradingPair, is_long: bool) -> Fixed {
    pools.swap_rate(0, pair, is_long)
}

fn accumulated_rate(pools: &MarginLiquidityPools, pair: TradingPair, is_long: bool) -> Fixed {
    pools.accumulated_swap_rate(0, pair, is_long)
}

fn execute_time(pools: &mut MarginLiquidityPools, now: u64) {
    pools.on_initialize(now);
}

fn default_option() -> MarginPoolTradingPairOption {
    MarginPoolTradingPairOption { enabled: false, bid_spread: None, ask_spread: None, enabled_trades: Leverages::none() }
}

fn ausd_feur() -> TradingPair {
    TradingPair { base: CurrencyId::AUSD, quote: CurrencyId::FEUR }
}

fn lami_ausd() -> TradingPair {
    TradingPair { base: CurrencyId::LAMI, quote: CurrencyId::AUSD }
}

fn short_ten_long_five() -> Leverages {
    Leverages::from_leverage(Leverage::ShortTen).with(Leverage::LongFive)
}

#[test]
fn tests_is_enabled_should_work() {
    let (mut pools, _) = new_test_ext();
    let pair = ausd_feur();
    assert_eq!(pools.base_mut().create_pool(ALICE), Ok(0));
    assert_eq!(pools.set_enabled_trades(ALICE, 0, pair, short_ten_long_five()), Ok(()));
    assert_eq!(pools.is_pool_trading_pair_leverage_enabled(0, pair, Leverage::ShortTen), true);
    assert_eq!(pools.is_pool_trading_pair_leverage_enabled(0, pair, Leverage::LongFive), true);
    assert_eq!(pools.is_pool_trading_pair_leverage_enabled(0, pair, Leverage::ShortFifty), false);
    assert_eq!(pools.is_pool_trading_pair_leverage_enabled(0, pair, Leverage::ShortTen), true);
}

#[test]
fn margin_should_disable_pool() {
    let (mut pools, _) = new_test_ext();
    let pair = ausd_feur();
    assert_eq!(pools.base_mut().create_pool(ALICE), Ok(0));
    assert_eq!(pools.pool_trading_pair_options(0, pair), default_option());
    assert_eq!(pools.set_enabled_trades(ALICE, 0, pair, short_ten_long_five()), Ok(()));
    assert_eq!(
        pools.pool_trading_pair_options(0, pair),
        MarginPoolTradingPairOption {
            enabled: false,
            bid_spread: None,
            ask_spread: None,
            enabled_trades: short_ten_long_five(),
        }
    );
    assert_eq!(pools.base().disable_pool(ALICE, 0), Ok(()));
    pools.on_disable(0);
    assert_eq!(pools.pool_trading_pair_options(0, pair), default_option());
}

#[test]
fn margin_should_remove_pool() {
    let (mut pools, mut ledger) = new_test_ext();
    let pair = ausd_feur();
    assert_eq!(pools.base_mut().create_pool(ALICE), Ok(0));
    assert_eq!(pools.base_mut().deposit_liquidity(&mut ledger, ALICE, 0, 1000), Ok(()));
    assert_eq!(pools.base().liquidity(0), 1000);
    assert_eq!(pools.base_mut().remove_pool(&mut ledger, ALICE, 0, true), Ok(()));
    pools.on_remove(0);
    assert_eq!(pools.pool_trading_pair_options(0, pair), default_option());
    assert_eq!(pools.base().owner(0), None);
    assert_eq!(pools.base().liquidity(0), 0);
}

#[test]
fn tests_should_set_spread() {
    let (mut pools, _) = new_test_ext();
    let pair = ausd_feur();
    assert_eq!(pools.base_mut().create_pool(ALICE), Ok(0));
    assert_eq!(pools.base().owner(0), Some(ALICE));
    assert_eq!(pools.pool_trading_pair_options(0, pair), default_option());
    assert_eq!(pools.set_spread(ALICE, 0, pair, Price::from_inner(80), Price::from_inner(60)), Ok(()));
    let pool_option = MarginPoolTradingPairOption {
        enabled: false,
        bid_spread: Some(Price::from_inner(80)),
        ask_spread: Some(Price::from_inner(60)),
        enabled_trades: Leverages::none(),
    };
    assert_eq!(pools.pool_trading_pair_options(0, pair), pool_option);
    assert_eq!(pools.bid_spread(0, pair), Some(Price::from_inner(80)));
    assert_eq!(pools.ask_spread(0, pair), Some(Price::from_inner(60)));
    assert_eq!(
        pools.set_spread(BOB, 0, pair, Price::from_inner(1), Price::from_inner(1)),
        Err(DispatchError::MarginLiquidityPools(MarginPoolsError::NoPermission))
    );
}

#[test]
fn tests_should_set_max_spread() {
    let (mut pools, _) = new_test_ext();
    let pair = ausd_feur();
    let opt = |bid: u128, ask: u128| MarginPoolTradingPairOption {
        enabled: false,
        bid_spread: Some(Price::from_inner(bid)),
        ask_spread: Some(Price::from_inner(ask)),
        enabled_trades: Leverages::none(),
    };
    assert_eq!(pools.base_mut().create_pool(ALICE), Ok(0));
    assert_eq!(pools.base().owner(0), Some(ALICE));
    assert_eq!(pools.pool_trading_pair_options(0, pair), default_option());
    // no max spread
    assert_eq!(pools.set_spread(ALICE, 0, pair, Price::from_inner(100), Price::from_inner(100)), Ok(()));
    // set max spread to 30
    assert_eq!(pools.set_max_spread(UPDATE_ORIGIN, pair, Price::from_inner(30)), Ok(()));
    assert_eq!(pools.pool_trading_pair_options(0, pair), opt(30, 30));
    assert_eq!(pools.set_spread(ALICE, 0, pair, Price::from_inner(31), Price::from_inner(28)), Ok(()));
    assert_eq!(pools.pool_trading_pair_options(0, pair), opt(30, 28));
    assert_eq!(pools.set_spread(ALICE, 0, pair, Price::from_inner(28), Price::from_inner(29)), Ok(()));
    assert_eq!(pools.pool_trading_pair_options(0, pair), opt(28, 29));
    assert_eq!(pools.set_max_spread(UPDATE_ORIGIN, pair, Price::from_inner(20)), Ok(()));
    assert_eq!(pools.pool_trading_pair_options(0, pair), opt(20, 20));
    assert_eq!(pools.set_max_spread(ALICE, pair, Price::from_inner(20)), Err(DispatchError::BadOrigin));
}

#[test]
fn tests_should_set_enabled_trades() {
    let (mut pools, _) = new_test_ext();
    let pair = ausd_feur();
    assert_eq!(pools.base_mut().create_pool(ALICE), Ok(0));
    assert_eq!(pools.base().owner(0), Some(ALICE));
    assert_eq!(pools.pool_trading_pair_options(0, pair), default_option());
    assert_eq!(pools.set_enabled_trades(ALICE, 0, pair, short_ten_long_five()), Ok(()));
    let pool_option = MarginPoolTradingPairOption {
        enabled: false,
        bid_spread: None,
        ask_spread: None,
        enabled_trades: short_ten_long_five(),
    };
    assert_eq!(pools.pool_trading_pair_options(0, pair), pool_option);
}

#[test]
fn should_set_swap_rate() {
    let (mut pools, _) = new_test_ext();
    let pair = lami_ausd();
    let rate = SwapRate { long: integer(-1), short: integer(1) };
    let bad_rate = SwapRate { long: integer(-3), short: integer(3) };
    let bad_long_rate = SwapRate { long: integer(-3), short: integer(1) };
    let bad_short_rate = SwapRate { long: integer(-1), short: integer(3) };
    let too_high = Err(DispatchError::MarginLiquidityPools(MarginPoolsError::SwapRateTooHigh));
    assert_eq!(pools.base_mut().create_pool(ALICE), Ok(0));
    assert_eq!(pools.set_swap_rate(UPDATE_ORIGIN, pair, rate), Ok(()));
    assert_eq!(pools.set_swap_rate(UPDATE_ORIGIN, pair, bad_rate), too_high);
    assert_eq!(pools.set_swap_rate(UPDATE_ORIGIN, pair, bad_long_rate), too_high);
    assert_eq!(pools.set_swap_rate(UPDATE_ORIGIN, pair, bad_short_rate), too_high);
    assert_eq!(pools.swap_rate_of_pair(pair), rate);
    assert_eq!(pools.set_swap_rate(ALICE, pair, rate), Err(DispatchError::BadOrigin));
}

#[test]
fn tests_should_get_swap() {
    let (mut pools, _) = new_test_ext();
    let pair = lami_ausd();
    let rate = SwapRate { long: integer(-1), short: integer(1) };
    assert_eq!(pools.base_mut().create_pool(ALICE), Ok(0));
    assert_eq!(pools.set_swap_rate(UPDATE_ORIGIN, pair, rate), Ok(()));
    assert_eq!(swap_rate(&pools, pair, true), rate.long);
    assert_eq!(swap_rate(&pools, pair, false), rate.short);

    // add additional swap rate
    assert_eq!(pools.set_additional_swap(ALICE, 0, integer(1)), Ok(()));
    assert_eq!(swap_rate(&pools, pair, true), integer(-2));
    assert_eq!(swap_rate(&pools, pair, false), integer(0));

    assert_eq!(pools.enable_trading_pair(UPDATE_ORIGIN, pair), Ok(()));
    assert_eq!(pools.liquidity_pool_enable_trading_pair(ALICE, 0, pair, Ok(())), Ok(()));
    assert_eq!(pools.set_additional_swap(ALICE, 0, integer(2)), Ok(()));
    assert_eq!(swap_rate(&pools, pair, true), fixed_i128_mul_signum(max_swap(), -1));
    assert_eq!(swap_rate(&pools, pair, false), integer(-1));
}

#[test]
fn tests_should_get_accumulated_swap() {
    let (mut pools, _) = new_test_ext();
    let pair = ausd_feur();
    let rate = SwapRate { long: rational(-1, 10), short: rational(1, 10) };

    assert_eq!(
        pools.set_accumulate(UPDATE_ORIGIN, pair, 1, 0),
        Err(DispatchError::MarginLiquidityPools(MarginPoolsError::FrequencyTooLow))
    );
    assert_eq!(pools.set_accumulate(UPDATE_ORIGIN, pair, 1 * ONE_MINUTE, 0), Ok(()));
    assert_eq!(pools.base_mut().create_pool(ALICE), Ok(0));
    assert_eq!(pools.set_swap_rate(UPDATE_ORIGIN, pair, rate), Ok(()));
    assert_eq!(accumulated_rate(&pools, pair, true), integer(0));
    assert_eq!(accumulated_rate(&pools, pair, false), integer(0));

    execute_time(&mut pools, 1 * ONE_MINUTE);
    assert_eq!(accumulated_rate(&pools, pair, true), rate.long);
    assert_eq!(accumulated_rate(&pools, pair, false), rate.short);

    // add additional swap rate
    assert_eq!(pools.set_additional_swap(ALICE, 0, rational(1, 10)), Ok(()));
    assert_eq!(accumulated_rate(&pools, pair, true), rational(-1, 10));
    assert_eq!(accumulated_rate(&pools, pair, false), rational(1, 10));

    execute_time(&mut pools, 2 * ONE_MINUTE);
    assert_eq!(accumulated_rate(&pools, pair, true), rational(-21, 100));
    assert_eq!(accumulated_rate(&pools, pair, false), rational(19, 100));
}

#[test]
fn ensure_can_open_position() {
    let (mut pools, _) = new_test_ext();
    let pair = ausd_feur();
    assert_eq!(pools.base_mut().create_pool(ALICE), Ok(0));
    assert_eq!(pools.enable_trading_pair(UPDATE_ORIGIN, pair), Ok(()));
    assert!(!pools.is_pool_trading_pair_enabled(0, pair));
    assert_eq!(pools.liquidity_pool_enable_trading_pair(ALICE, 0, pair, Ok(())), Ok(()));
    assert_eq!(
        pools.ensure_can_open_position(0, pair, Leverage::ShortFive, 0),
        Err(OpenPositionError::LeverageNotAllowedInPool)
    );
    assert_eq!(pools.set_enabled_trades(ALICE, 0, pair, Leverages::from_leverage(Leverage::ShortFive)), Ok(()));
    assert_eq!(pools.set_enabled_trades(ALICE, 0, pair, Leverages::from_leverage(Leverage::ShortFive)), Ok(()));
    assert_eq!(pools.ensure_can_open_position(0, pair, Leverage::ShortFive, 0), Ok(()));
    assert!(pools.can_open_position(0, pair, Leverage::ShortFive, 0));
}

#[test]
fn open_position_errors_in_order() {
    let (mut pools, _) = new_test_ext();
    let pair = ausd_feur();
    assert_eq!(pools.base_mut().create_pool(ALICE), Ok(0));
    assert_eq!(pools.set_enabled_trades(ALICE, 0, pair, Leverages::all()), Ok(()));
    assert_eq!(
        pools.ensure_can_open_position(0, pair, Leverage::LongTwo, 0),
        Err(OpenPositionError::TradingPairNotEnabled)
    );
    assert_eq!(pools.enable_trading_pair(UPDATE_ORIGIN, pair), Ok(()));
    assert_eq!(
        pools.ensure_can_open_position(0, pair, Leverage::LongTwo, 0),
        Err(OpenPositionError::TradingPairNotEnabledInPool)
    );
    assert_eq!(pools.liquidity_pool_enable_trading_pair(ALICE, 0, pair, Ok(())), Ok(()));
    assert_eq!(pools.set_min_leveraged_amount(ALICE, 0, 100), Ok(()));
    assert_eq!(
        pools.ensure_can_open_position(0, pair, Leverage::LongTwo, 99),
        Err(OpenPositionError::BelowMinLeveragedAmount)
    );
    assert_eq!(pools.ensure_can_open_position(0, pair, Leverage::LongTwo, 100), Ok(()));
}

#[test]
fn tests_should_update_accumulated_rate() {
    let (mut pools, _) = new_test_ext();
    let pair = ausd_feur();
    let rate = SwapRate { long: rational(-23, 1000), short: rational(23, 1000) };

    assert_eq!(pools.set_accumulate(UPDATE_ORIGIN, pair, 1 * ONE_MINUTE, 0), Ok(()));
    assert_eq!(pools.base_mut().create_pool(ALICE), Ok(0));
    assert_eq!(pools.set_swap_rate(UPDATE_ORIGIN, pair, rate), Ok(()));
    assert_eq!(swap_rate(&pools, pair, true), rate.long);
    assert_eq!(swap_rate(&pools, pair, false), rate.short);

    assert_eq!(accumulated_rate(&pools, pair, true), integer(0));
    assert_eq!(accumulated_rate(&pools, pair, false), integer(0));

    execute_time(&mut pools, 1 * ONE_MINUTE);
    assert_eq!(accumulated_rate(&pools, pair, true), rational(-23, 1000));
    assert_eq!(accumulated_rate(&pools, pair, false), rational(23, 1000));

    execute_time(&mut pools, 2 * ONE_MINUTE);
    assert_eq!(accumulated_rate(&pools, pair, true), rational(-46, 1000));
    assert_eq!(accumulated_rate(&pools, pair, false), rational(46, 1000));

    execute_time(&mut pools, 3 * ONE_MINUTE);
    assert_eq!(accumulated_rate(&pools, pair, true), rational(-69, 1000));
    assert_eq!(accumulated_rate(&pools, pair, false), rational(69, 1000));

    execute_time(&mut pools, 4 * ONE_MINUTE);
    assert_eq!(accumulated_rate(&pools, pair, true), rational(-92, 1000));
    assert_eq!(accumulated_rate(&pools, pair, false), rational(92, 1000));

    // + 10s, the same minute
    execute_time(&mut pools, 4 * ONE_MINUTE + 10);
    assert_eq!(accumulated_rate(&pools, pair, true), rational(-92, 1000));
    assert_eq!(accumulated_rate(&pools, pair, false), rational(92, 1000));
    assert_eq!(pools.last_accumulate_time(), 4 * ONE_MINUTE);
}

#[test]
fn accumulation_follows_frequency_and_offset() {
    let (mut pools, _) = new_test_ext();
    let pair = ausd_feur();
    let rate = SwapRate { long: rational(-1, 100), short: rational(1, 100) };
    assert_eq!(pools.set_accumulate(UPDATE_ORIGIN, pair, 3 * ONE_MINUTE, 1 * ONE_MINUTE), Ok(()));
    assert_eq!(pools.base_mut().create_pool(ALICE), Ok(0));
    assert_eq!(pools.set_swap_rate(UPDATE_ORIGIN, pair, rate), Ok(()));
    // 3 minutes is 0 mod 3: not due
    execute_time(&mut pools, 3 * ONE_MINUTE);
    assert_eq!(accumulated_rate(&pools, pair, true), integer(0));
    // 4 minutes is 1 mod 3: due
    execute_time(&mut pools, 4 * ONE_MINUTE);
    assert_eq!(accumulated_rate(&pools, pair, true), rational(-1, 100));
    // a pool created later starts from zero, the first one keeps its total
    assert_eq!(pools.base_mut().create_pool(BOB), Ok(1));
    execute_time(&mut pools, 7 * ONE_MINUTE);
    assert_eq!(accumulated_rate(&pools, pair, true), rational(-2, 100));
    assert_eq!(pools.accumulated_swap_rate(1, pair, true), rational(-1, 100));
}

#[test]
fn should_enable_disable_trading_pairs() {
    let (mut pools, _) = new_test_ext();
    let pair = ausd_feur();
    assert!(!pools.is_trading_pair_enabled(pair));
    assert_eq!(pools.enable_trading_pair(UPDATE_ORIGIN, pair), Ok(()));
    assert!(pools.is_trading_pair_enabled(pair));
    assert_eq!(pools.disable_trading_pair(UPDATE_ORIGIN, pair), Ok(()));
    assert!(!pools.is_trading_pair_enabled(pair));
}

#[test]
fn liquidity_provider_should_enable_disable_trading_pairs() {
    let (mut pools, _) = new_test_ext();
    let pair = ausd_feur();
    assert_eq!(pools.base_mut().create_pool(ALICE), Ok(0));
    assert_eq!(
        pools.liquidity_pool_enable_trading_pair(ALICE, 0, pair, Ok(())),
        Err(DispatchError::MarginLiquidityPools(MarginPoolsError::TradingPairNotEnabled))
    );
    assert_eq!(pools.enable_trading_pair(UPDATE_ORIGIN, pair), Ok(()));
    assert!(!pools.is_pool_trading_pair_enabled(0, pair));
    assert_eq!(pools.liquidity_pool_enable_trading_pair(ALICE, 0, pair, Ok(())), Ok(()));
    assert!(pools.is_pool_trading_pair_enabled(0, pair));
    assert_eq!(pools.liquidity_pool_disable_trading_pair(ALICE, 0, pair), Ok(()));
    assert!(!pools.is_pool_trading_pair_enabled(0, pair));
}

#[test]
fn should_set_default_min_leveraged_amount() {
    let (mut pools, _) = new_test_ext();
    let pool_id = 0;
    assert_eq!(pools.default_min_leveraged_amount(), 0);
    assert_eq!(pools.min_leveraged_amount(pool_id), 0);
    assert_eq!(pools.set_default_min_leveraged_amount(UPDATE_ORIGIN, 10), Ok(()));
    assert_eq!(pools.default_min_leveraged_amount(), 10);
    assert_eq!(pools.min_leveraged_amount(pool_id), 10);
}

#[test]
fn should_set_min_leveraged_amount() {
    let (mut pools, _) = new_test_ext();
    let pool_id = 0;
    assert_eq!(pools.pool_options(pool_id).min_leveraged_amount, 0);
    assert_eq!(pools.min_leveraged_amount(pool_id), 0);

    assert_eq!(pools.set_default_min_leveraged_amount(UPDATE_ORIGIN, 10), Ok(()));
    assert_eq!(pools.min_leveraged_amount(pool_id), 10);

    // pool not created yet
    assert_eq!(
        pools.set_min_leveraged_amount(ALICE, pool_id, 10),
        Err(DispatchError::MarginLiquidityPools(MarginPoolsError::NoPermission))
    );

    // create pool and set min leveraged amount
    assert_eq!(pools.base_mut().create_pool(ALICE), Ok(0));
    assert_eq!(pools.set_min_leveraged_amount(ALICE, pool_id, 2), Ok(()));
    assert_eq!(pools.pool_options(pool_id).min_leveraged_amount, 2);
    assert_eq!(pools.min_leveraged_amount(pool_id), 10);

    // non pool owners cannot set min leveraged amount
    assert_eq!(
        pools.set_min_leveraged_amount(BOB, pool_id, 20),
        Err(DispatchError::MarginLiquidityPools(MarginPoolsError::NoPermission))
    );
}
