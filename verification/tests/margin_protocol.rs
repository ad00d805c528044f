use laminar::base_pools::BaseLiquidityPools;
use laminar::error::{DispatchError, MarginError, TokenError};
use laminar::fixed::{Fixed, Permill, UFixed};
use laminar::ledger::Ledger;
use laminar::margin_pools::MarginLiquidityPools;
use laminar::mock::MockLiquidityPools;
use laminar::margin_protocol::{
    accumulated_swap_rate_of_position, unrealized_pl_of_position, Action, LeveragedAmounts, MarginProtocol,
    OffchainCall, OffchainErr, Position, PositionsSnapshot, Risk, RiskThreshold,
};
use laminar::prices::Prices;
use laminar::primitives::{AccountId, Balance, CurrencyId, Leverage, Leverages, LiquidityPoolId, TradingPair};

const ALICE: AccountId = 0;
const BOB: AccountId = 1;
const ROOT: AccountId = 2;
const TREASURY_ACCOUNT: AccountId = 3;
const POOL_OWNER: AccountId = 50;
const POOLS_ACCOUNT: AccountId = 1000;
const MARGIN_ACCOUNT: AccountId = 2000;
const MOCK_POOL: LiquidityPoolId = 0;
const MOCK_POOL_1: LiquidityPoolId = 1;
const ONE: u128 = 1_000_000_000_000_000_000;

const EUR_USD_PAIR: TradingPair = TradingPair { base: CurrencyId::FEUR, quote: CurrencyId::AUSD };
const EUR_JPY_PAIR: TradingPair = TradingPair { base: CurrencyId::FEUR, quote: CurrencyId::FJPY };
const JPY_USD_PAIR: TradingPair = TradingPair { base: CurrencyId::FJPY, quote: CurrencyId::AUSD };
const PAIRS: [TradingPair; 3] = [EUR_USD_PAIR, EUR_JPY_PAIR, JPY_USD_PAIR];

/// `n` cents as a signed fixed-point amount.
fn fixedi128_saturating_from_integer_currency_cent(n: i128) -> Fixed {
    Fixed::from_inner(n * 10_000_000_000_000_000)
}

/// `b` cents as a balance.
fn balance_saturating_from_integer_currency_cent(b: u128) -> Balance {
    b * 10_000_000_000_000_000
}

fn whole(n: i128) -> Fixed {
    Fixed::saturating_from_integer(n)
}

/// `x / y` as a price, rounded down, saturating.
fn rational(x: u128, y: u128) -> UFixed {
    match x.checked_mul(ONE) {
        Some(v) => UFixed::from_inner(v / y),
        None => UFixed::from_inner(u128::MAX),
    }
}

/// `x / y` as a signed fixed-point number, rounded down.
fn srational(x: i128, y: i128) -> Fixed {
    Fixed::from_inner(x * (ONE as i128) / y)
}

fn risk_threshold(margin_call_percent: u32, stop_out_percent: u32) -> RiskThreshold {
    RiskThreshold {
        margin_call: Permill::from_percent(margin_call_percent),
        stop_out: Permill::from_percent(stop_out_percent),
    }
}

fn positions_snapshot(count: u64, long_held: Fixed, long_debits: Fixed, short_held: Fixed, short_debits: Fixed) -> PositionsSnapshot {
    PositionsSnapshot {
        positions_count: count,
        long: LeveragedAmounts { held: long_held, debits: long_debits },
        short: LeveragedAmounts { held: short_held, debits: short_debits },
    }
}

/// A position of Alice in the mock pool. The pools here start with accumulated swap rates of
/// zero, and open rates are given relative to that start.
fn position(pair: TradingPair, leverage: Leverage, held: Fixed, debits: Fixed, open_rate: Fixed, margin: Fixed) -> Position {
    Position {
        owner: ALICE,
        pool: MOCK_POOL,
        pair,
        leverage,
        leveraged_held: held,
        leveraged_debits: debits,
        open_accumulated_swap_rate: open_rate,
        margin_held: margin,
    }
}

fn eur_jpy_long() -> Position {
    position(EUR_JPY_PAIR, Leverage::LongTwenty, whole(100_000), whole(-14_104_090), whole(0), fixedi128_saturating_from_integer_currency_cent(6_591_00))
}

fn eur_jpy_short() -> Position {
    position(EUR_JPY_PAIR, Leverage::ShortTwenty, whole(-100_000), whole(14_175_810), whole(0), fixedi128_saturating_from_integer_currency_cent(6_687_00))
}

fn eur_usd_long_1() -> Position {
    position(EUR_USD_PAIR, Leverage::LongFive, whole(100_000), fixedi128_saturating_from_integer_currency_cent(-120_420_30), srational(36_87, 100_000_00), fixedi128_saturating_from_integer_currency_cent(24_084_00))
}

fn eur_usd_long_2() -> Position {
    position(EUR_USD_PAIR, Leverage::LongTwenty, whole(100_000), fixedi128_saturating_from_integer_currency_cent(-119_419_30), srational(18_43, 100_000_00), fixedi128_saturating_from_integer_currency_cent(5_971_00))
}

fn eur_usd_short_1() -> Position {
    position(EUR_USD_PAIR, Leverage::ShortTen, whole(-100_000), fixedi128_saturating_from_integer_currency_cent(119_780_10), srational(10_96, 100_000_00), fixedi128_saturating_from_integer_currency_cent(11_978_00))
}

fn eur_usd_short_2() -> Position {
    position(EUR_USD_PAIR, Leverage::ShortFifty, whole(-200_000), fixedi128_saturating_from_integer_currency_cent(237_362_40), srational(3_65, 100_000_00), fixedi128_saturating_from_integer_currency_cent(4_747_00))
}

fn jpy_usd_long_1() -> Position {
    position(JPY_USD_PAIR, Leverage::LongFive, whole(100_000), fixedi128_saturating_from_integer_currency_cent(-120_420_30), srational(36_87, 100_000_00), fixedi128_saturating_from_integer_currency_cent(24_084_00))
}

fn simple_long(held_cents: i128, debit_cents: i128, margin_cents: i128) -> Position {
    position(EUR_USD_PAIR, Leverage::LongTwo, fixedi128_saturating_from_integer_currency_cent(held_cents), fixedi128_saturating_from_integer_currency_cent(debit_cents), whole(0), fixedi128_saturating_from_integer_currency_cent(margin_cents))
}

fn merr(e: MarginError) -> DispatchError {
    DispatchError::MarginProtocol(e)
}

/// A margin protocol over one pool, owned by `POOL_OWNER`, whose spread is a share of the
/// current price of each pair.
struct Ext {
    ledger: Ledger,
    prices: Prices,
    pools: MarginLiquidityPools,
    protocol: MarginProtocol,
    mock: MockLiquidityPools,
}

struct Builder {
    alice: Balance,
    module: Balance,
    spread_parts: u128,
    prices: Vec<(CurrencyId, UFixed)>,
    liquidity: Balance,
}

impl Builder {
    fn new() -> Builder {
        Builder { alice: 0, module: 0, spread_parts: 1000, prices: vec![], liquidity: 0 }
    }

    fn alice_balance(mut self, b: Balance) -> Builder {
        self.alice = b;
        self
    }

    fn module_balance(mut self, b: Balance) -> Builder {
        self.module = b;
        self
    }

    fn spread_zero(mut self) -> Builder {
        self.spread_parts = 0;
        self
    }

    fn spread_percent(mut self, p: u128) -> Builder {
        self.spread_parts = p * 10_000;
        self
    }

    fn price(mut self, c: CurrencyId, p: (u128, u128)) -> Builder {
        self.prices.push((c, rational(p.0, p.1)));
        self
    }

    fn pool_liquidity(mut self, l: Balance) -> Builder {
        self.liquidity = l;
        self
    }

    fn build(self) -> Ext {
        let mut ledger = Ledger::new();
        let base = BaseLiquidityPools::new(POOLS_ACCOUNT, CurrencyId::AUSD, 0, 1000, ROOT);
        let mut pools = MarginLiquidityPools::new(base, whole(1), 0, ROOT);
        assert_eq!(pools.base_mut().create_pool(POOL_OWNER), Ok(MOCK_POOL));
        if self.liquidity > 0 {
            ledger.set_balance(POOL_OWNER, CurrencyId::AUSD, self.liquidity);
            assert_eq!(pools.base_mut().deposit_liquidity(&mut ledger, POOL_OWNER, MOCK_POOL, self.liquidity), Ok(()));
        }
        for pair in PAIRS.iter() {
            assert_eq!(pools.enable_trading_pair(ROOT, *pair), Ok(()));
            assert_eq!(pools.liquidity_pool_enable_trading_pair(POOL_OWNER, MOCK_POOL, *pair, Ok(())), Ok(()));
            assert_eq!(pools.set_enabled_trades(POOL_OWNER, MOCK_POOL, *pair, Leverages::all()), Ok(()));
        }
        let mut protocol = MarginProtocol::new(MARGIN_ACCOUNT, TREASURY_ACCOUNT, 200, 1000, ROOT, CurrencyId::AUSD);
        let zero = risk_threshold(0, 0);
        for pair in [EUR_USD_PAIR, EUR_JPY_PAIR].iter() {
            assert_eq!(protocol.set_trading_pair_risk_threshold(ROOT, *pair, Some(zero), Some(zero), Some(zero)), Ok(()));
        }
        ledger.set_balance(ALICE, CurrencyId::AUSD, self.alice);
        ledger.set_balance(MARGIN_ACCOUNT, CurrencyId::AUSD, self.module);
        let mut mock = MockLiquidityPools::new();
        mock.set_mock_spread(Permill::from_parts(self.spread_parts as u32));
        let mut ext = Ext { ledger, prices: Prices::new(), pools, protocol, mock };
        ext.prices.set_price(CurrencyId::AUSD, Some(UFixed::from_inner(ONE)));
        for (c, p) in self.prices.iter() {
            ext.prices.set_price(*c, Some(*p));
        }
        ext.update_spreads();
        ext
    }
}

impl Ext {
    /// Sets each spread to the share of the pair's price that the mock spread gives, rounded
    /// down.
    fn update_spreads(&mut self) {
        let spread_parts = self.mock.spread().deconstruct() as u128;
        for pair in PAIRS.iter() {
            if let Some(p) = self.prices.get_price(pair.base, pair.quote) {
                let inner = p.into_inner();
                let whole = (inner / 1_000_000).saturating_mul(spread_parts);
                let part = (inner % 1_000_000) * spread_parts / 1_000_000;
                let spread = UFixed::from_inner(whole.saturating_add(part));
                assert_eq!(self.pools.set_spread(POOL_OWNER, MOCK_POOL, *pair, spread, spread), Ok(()));
            }
        }
    }

    fn set_price(&mut self, c: CurrencyId, p: (u128, u128)) {
        self.prices.set_price(c, Some(rational(p.0, p.1)));
        self.update_spreads();
    }

    fn set_balance(&mut self, who: AccountId, pool: LiquidityPoolId, amount: Fixed) {
        let current = self.protocol.balances(who, pool);
        self.protocol.update_balance(who, pool, Fixed::from_inner(amount.into_inner() - current.into_inner()));
    }

    fn insert(&mut self, p: Position) -> u64 {
        self.protocol.insert_position(p).unwrap()
    }

    fn set_trader_risk_threshold(&mut self, pair: TradingPair, t: RiskThreshold) {
        assert_eq!(self.protocol.set_trading_pair_risk_threshold(ROOT, pair, Some(t), None, None), Ok(()));
    }

    fn set_enp_risk_threshold(&mut self, pair: TradingPair, t: RiskThreshold) {
        assert_eq!(self.protocol.set_trading_pair_risk_threshold(ROOT, pair, None, Some(t), None), Ok(()));
    }

    fn set_ell_risk_threshold(&mut self, pair: TradingPair, t: RiskThreshold) {
        assert_eq!(self.protocol.set_trading_pair_risk_threshold(ROOT, pair, None, None, Some(t)), Ok(()));
    }

    fn liquidity(&self) -> Balance {
        self.pools.base().liquidity(MOCK_POOL)
    }

    fn margin_level(&self, who: AccountId) -> Result<Fixed, DispatchError> {
        self.protocol.margin_level(&self.pools, &self.prices, who, MOCK_POOL)
    }

    fn enp_and_ell(&self, action: Action) -> Result<(Fixed, Fixed), MarginError> {
        self.protocol.enp_and_ell_with_action(&self.pools, &self.prices, MOCK_POOL, action)
    }

    fn open(&mut self, who: AccountId, pair: TradingPair, leverage: Leverage, amount: Balance, price: UFixed) -> Result<u64, DispatchError> {
        self.protocol.open_position(&self.pools, &self.prices, who, MOCK_POOL, pair, leverage, amount, price)
    }

    fn close(&mut self, who: AccountId, id: u64, price: UFixed) -> Result<(), DispatchError> {
        self.protocol.close_position(&mut self.pools, &self.prices, &mut self.ledger, who, id, price)
    }

    fn trader_margin_call(&mut self, who: AccountId) -> Result<(), DispatchError> {
        self.protocol.trader_margin_call(&self.pools, &self.prices, who, MOCK_POOL)
    }

    fn trader_become_safe(&mut self, who: AccountId) -> Result<(), DispatchError> {
        self.protocol.trader_become_safe(&self.pools, &self.prices, who, MOCK_POOL)
    }

    fn trader_stop_out(&mut self, who: AccountId) -> Result<(), DispatchError> {
        self.protocol.trader_stop_out(&mut self.pools, &self.prices, &mut self.ledger, who, MOCK_POOL)
    }

    fn pool_margin_call(&mut self) -> Result<(), DispatchError> {
        self.protocol.liquidity_pool_margin_call(&self.pools, &self.prices, MOCK_POOL)
    }

    fn pool_become_safe(&mut self) -> Result<(), DispatchError> {
        self.protocol.liquidity_pool_become_safe(&self.pools, &self.prices, MOCK_POOL)
    }

    fn pool_force_close(&mut self) -> Result<(), DispatchError> {
        self.protocol.liquidity_pool_force_close(&mut self.pools, &self.prices, &mut self.ledger, MOCK_POOL)
    }
}

/// USD/JPY = 110, EUR/JPY = 140.
fn jpy_110() -> Ext {
    Builder::new().price(CurrencyId::FJPY, (1, 110)).price(CurrencyId::FEUR, (140, 110)).build()
}

/// USD/JPY = 107, EUR/JPY = 140.9, with a funded pool and Alice's balance in it.
fn jpy_107_funded() -> Ext {
    let mut ext = Builder::new()
        .price(CurrencyId::FJPY, (1, 107))
        .price(CurrencyId::FEUR, (1409, 1070))
        .pool_liquidity(balance_saturating_from_integer_currency_cent(100_000_00))
        .build();
    ext.set_balance(ALICE, MOCK_POOL, fixedi128_saturating_from_integer_currency_cent(10_000_00));
    ext
}

fn eur_12_with_four_positions(liquidity: Balance) -> Ext {
    let mut ext = Builder::new().pool_liquidity(liquidity).price(CurrencyId::FEUR, (12, 10)).build();
    ext.insert(eur_usd_long_1());
    ext.insert(eur_usd_long_2());
    ext.insert(eur_usd_short_1());
    ext.insert(eur_usd_short_2());
    ext
}

fn parity_zero_spread(liquidity: Balance) -> Ext {
    Builder::new().spread_zero().price(CurrencyId::FEUR, (1, 1)).pool_liquidity(liquidity).build()
}

#[test]
fn unrealized_pl_of_long_position_works() {
    let ext = jpy_110();
    assert_eq!(
        unrealized_pl_of_position(&ext.pools, &ext.prices, &eur_jpy_long()),
        Ok(Fixed::from_inner(-1073_545454545441749918))
    );
}

#[test]
fn unrealized_pl_of_short_position_works() {
    let ext = jpy_110();
    assert_eq!(
        unrealized_pl_of_position(&ext.pools, &ext.prices, &eur_jpy_short()),
        Ok(Fixed::from_inner(1470_999999999987141082))
    );
}

#[test]
fn unrealized_pl_of_trader_sums_all_positions() {
    let mut ext = jpy_110();
    ext.insert(eur_jpy_long());
    ext.insert(eur_jpy_short());
    assert_eq!(
        ext.protocol.unrealized_pl_of_trader(&ext.pools, &ext.prices, ALICE, MOCK_POOL),
        Ok(Fixed::from_inner(397_454545454545391164))
    );
}

#[test]
fn margin_held_sums_all_margin_held() {
    let mut ext = Builder::new().build();
    ext.insert(eur_jpy_long());
    ext.insert(eur_jpy_short());
    assert_eq!(ext.protocol.margin_held(ALICE, MOCK_POOL), fixedi128_saturating_from_integer_currency_cent(13_278_00));
}

#[test]
fn accumulated_swap_rate_of_long_position_works() {
    let ext = Builder::new().price(CurrencyId::FEUR, (1, 1)).build();
    assert_eq!(
        accumulated_swap_rate_of_position(&ext.pools, &ext.prices, &eur_usd_long_1()),
        Ok(Fixed::from_inner(-44398964610000000000))
    );
}

#[test]
fn accumulated_swap_rate_of_short_position_works() {
    let ext = Builder::new().price(CurrencyId::FEUR, (1, 1)).build();
    assert_eq!(
        accumulated_swap_rate_of_position(&ext.pools, &ext.prices, &eur_usd_short_1()),
        Ok(Fixed::from_inner(-13127898960000000000))
    );
}

#[test]
fn accumulated_swap_rate_of_trader_sums_all_positions() {
    let mut ext = Builder::new().price(CurrencyId::FEUR, (1, 1)).build();
    ext.insert(eur_usd_long_1());
    ext.insert(eur_usd_short_1());
    assert_eq!(
        ext.protocol.accumulated_swap_rate_of_trader(&ext.pools, &ext.prices, ALICE, MOCK_POOL),
        Ok(Fixed::from_inner(-57526863570000000000))
    );
}

#[test]
fn equity_of_trader_works() {
    let mut ext = eur_12_with_four_positions(0);
    ext.set_balance(ALICE, MOCK_POOL, fixedi128_saturating_from_integer_currency_cent(120_000_00));
    assert_eq!(
        ext.protocol.equity_of_trader(&ext.pools, &ext.prices, ALICE, MOCK_POOL),
        Ok(Fixed::from_inner(116614700431840000000000))
    );
}

#[test]
fn margin_level_works() {
    let mut ext = eur_12_with_four_positions(0);
    ext.set_balance(ALICE, MOCK_POOL, fixedi128_saturating_from_integer_currency_cent(120_000_00));
    assert_eq!(ext.margin_level(ALICE), Ok(Fixed::from_inner(195340363524869506)));
}

#[test]
fn margin_level_without_any_opened_position_is_max() {
    let mut ext = Builder::new().build();
    ext.set_balance(ALICE, MOCK_POOL, Fixed::from_inner(1));
    assert_eq!(ext.margin_level(ALICE), Ok(Fixed::max_value()));
}

#[test]
fn ensure_trader_safe_works() {
    let mut ext = parity_zero_spread(0);
    ext.set_trader_risk_threshold(EUR_USD_PAIR, risk_threshold(100, 0));
    ext.set_balance(ALICE, MOCK_POOL, fixedi128_saturating_from_integer_currency_cent(100));
    ext.insert(simple_long(100, -100, 100));
    assert_eq!(ext.margin_level(ALICE), Ok(whole(1)));
    assert_eq!(
        ext.protocol.ensure_trader_safe(&ext.pools, &ext.prices, ALICE, MOCK_POOL, Action::Nothing),
        Err(MarginError::UnsafeTrader)
    );
    ext.set_trader_risk_threshold(EUR_USD_PAIR, risk_threshold(99, 0));
    assert_eq!(ext.protocol.ensure_trader_safe(&ext.pools, &ext.prices, ALICE, MOCK_POOL, Action::Nothing), Ok(()));
}

#[test]
fn equity_of_pool_works() {
    let ext = eur_12_with_four_positions(balance_saturating_from_integer_currency_cent(100_000_00));
    let long_held = eur_usd_long_1().leveraged_held.checked_add(&eur_usd_long_2().leveraged_held).unwrap();
    let long_debits = eur_usd_long_1().leveraged_debits.checked_add(&eur_usd_long_2().leveraged_debits).unwrap();
    let short_held = eur_usd_short_1().leveraged_held.checked_add(&eur_usd_short_2().leveraged_held).unwrap();
    let short_debits = eur_usd_short_1().leveraged_debits.checked_add(&eur_usd_short_2().leveraged_debits).unwrap();
    assert_eq!(
        ext.protocol.pool_positions_snapshots(MOCK_POOL, EUR_USD_PAIR),
        positions_snapshot(4, long_held, long_debits, short_held, short_debits)
    );
    assert_eq!(
        ext.protocol.equity_of_pool(&ext.pools, &ext.prices, MOCK_POOL),
        Ok(Fixed::from_inner(103297_100000000000000000))
    );
}

#[test]
fn enp_and_ell_without_new_position_works() {
    let ext = eur_12_with_four_positions(balance_saturating_from_integer_currency_cent(100_000_00));
    assert_eq!(
        ext.enp_and_ell(Action::Nothing),
        Ok((Fixed::from_inner(0_860809166666666667), Fixed::from_inner(0_286936388888888889)))
    );
}

#[test]
fn enp_and_ell_with_new_position_works() {
    let ext = Builder::new().price(CurrencyId::FEUR, (12, 10)).pool_liquidity(balance_saturating_from_integer_currency_cent(100_000_00)).build();
    assert_eq!(
        ext.enp_and_ell(Action::OpenPosition(eur_usd_long_1())),
        Ok((Fixed::from_inner(833333333333333333), Fixed::from_inner(833333333333333333)))
    );
}

#[test]
fn enp_and_ell_without_position_with_liquidity_works() {
    let ext = eur_12_with_four_positions(balance_saturating_from_integer_currency_cent(100_000_00));
    assert_eq!(
        ext.enp_and_ell(Action::Withdraw(balance_saturating_from_integer_currency_cent(10))),
        Ok((Fixed::from_inner(0_860808333333333333), Fixed::from_inner(0_286936111111111111)))
    );
}

#[test]
fn ensure_liquidity_works() {
    let mut ext = parity_zero_spread(balance_saturating_from_integer_currency_cent(100));
    ext.set_enp_risk_threshold(EUR_USD_PAIR, risk_threshold(99, 0));
    ext.set_ell_risk_threshold(EUR_USD_PAIR, risk_threshold(99, 0));
    ext.insert(simple_long(100, -100, 100));
    assert_eq!(ext.protocol.ensure_can_withdraw(&ext.pools, &ext.prices, MOCK_POOL, 10), Ok(()));
    ext.set_ell_risk_threshold(EUR_USD_PAIR, risk_threshold(100, 0));
    assert_eq!(
        ext.protocol.ensure_can_withdraw(&ext.pools, &ext.prices, MOCK_POOL, 1),
        Err(merr(MarginError::PoolWouldBeUnsafe))
    );
}

#[test]
fn ensure_pool_safe_works() {
    let mut ext = parity_zero_spread(balance_saturating_from_integer_currency_cent(100));
    ext.set_enp_risk_threshold(EUR_USD_PAIR, risk_threshold(99, 0));
    ext.set_ell_risk_threshold(EUR_USD_PAIR, risk_threshold(99, 0));
    let p = simple_long(100, -100, 100);
    assert_eq!(ext.enp_and_ell(Action::OpenPosition(p)), Ok((whole(1), whole(1))));
    let safe = |ext: &Ext, a: Action| ext.protocol.ensure_pool_safe(&ext.pools, &ext.prices, MOCK_POOL, a);
    assert_eq!(safe(&ext, Action::OpenPosition(p)), Ok(()));
    ext.set_enp_risk_threshold(EUR_USD_PAIR, risk_threshold(100, 0));
    assert_eq!(safe(&ext, Action::OpenPosition(p)), Err(MarginError::PoolWouldBeUnsafe));
    ext.set_enp_risk_threshold(EUR_USD_PAIR, risk_threshold(99, 0));
    ext.set_ell_risk_threshold(EUR_USD_PAIR, risk_threshold(100, 0));
    assert_eq!(safe(&ext, Action::OpenPosition(p)), Err(MarginError::PoolWouldBeUnsafe));

    ext.insert(p);
    ext.set_ell_risk_threshold(EUR_USD_PAIR, risk_threshold(99, 0));
    assert_eq!(ext.enp_and_ell(Action::Nothing), Ok((whole(1), whole(1))));
    assert_eq!(safe(&ext, Action::Nothing), Ok(()));
    ext.set_enp_risk_threshold(EUR_USD_PAIR, risk_threshold(100, 0));
    assert_eq!(safe(&ext, Action::Nothing), Err(MarginError::UnsafePool));
    ext.set_enp_risk_threshold(EUR_USD_PAIR, risk_threshold(99, 0));
    ext.set_ell_risk_threshold(EUR_USD_PAIR, risk_threshold(100, 0));
    assert_eq!(safe(&ext, Action::Nothing), Err(MarginError::UnsafePool));
}

#[test]
fn trader_margin_call_should_work() {
    let mut ext = parity_zero_spread(0);
    ext.set_trader_risk_threshold(EUR_USD_PAIR, risk_threshold(5, 3));
    ext.set_balance(ALICE, MOCK_POOL, fixedi128_saturating_from_integer_currency_cent(100));
    assert_eq!(ext.margin_level(ALICE), Ok(Fixed::max_value()));
    assert_eq!(ext.trader_margin_call(ALICE), Err(merr(MarginError::SafeTrader)));
    ext.insert(simple_long(100, -100, 100));
    assert_eq!(ext.margin_level(ALICE), Ok(whole(1)));
    ext.set_price(CurrencyId::FEUR, (1, 20));
    assert_eq!(ext.margin_level(ALICE), Ok(srational(5, 100)));
    assert_eq!(ext.trader_margin_call(ALICE), Ok(()));
    assert!(ext.protocol.is_trader_margin_called(ALICE, MOCK_POOL));
}

#[test]
fn trader_become_safe_should_work() {
    let mut ext = parity_zero_spread(0);
    ext.set_trader_risk_threshold(EUR_USD_PAIR, risk_threshold(5, 3));
    ext.set_balance(ALICE, MOCK_POOL, fixedi128_saturating_from_integer_currency_cent(100));
    assert_eq!(ext.trader_become_safe(ALICE), Ok(()));
    ext.insert(simple_long(100, -100, 100));
    assert_eq!(ext.margin_level(ALICE), Ok(whole(1)));
    ext.set_price(CurrencyId::FEUR, (4, 100));
    assert_eq!(ext.margin_level(ALICE), Ok(srational(4, 100)));
    assert_eq!(ext.trader_margin_call(ALICE), Ok(()));
    assert_eq!(ext.trader_become_safe(ALICE), Err(merr(MarginError::UnsafeTrader)));
    ext.set_price(CurrencyId::FEUR, (5, 100));
    assert_eq!(ext.margin_level(ALICE), Ok(srational(5, 100)));
    assert_eq!(ext.trader_become_safe(ALICE), Err(merr(MarginError::UnsafeTrader)));
    ext.set_price(CurrencyId::FEUR, (6, 100));
    assert_eq!(ext.margin_level(ALICE), Ok(srational(6, 100)));
    assert_eq!(ext.trader_become_safe(ALICE), Ok(()));
    assert!(!ext.protocol.is_trader_margin_called(ALICE, MOCK_POOL));
}

#[test]
fn trader_stop_out_should_work() {
    let mut ext = parity_zero_spread(balance_saturating_from_integer_currency_cent(100));
    ext.set_trader_risk_threshold(EUR_USD_PAIR, risk_threshold(5, 3));
    ext.set_balance(ALICE, MOCK_POOL, fixedi128_saturating_from_integer_currency_cent(100));
    assert_eq!(ext.trader_stop_out(ALICE), Err(merr(MarginError::NotReachedRiskThreshold)));
    ext.insert(simple_long(100, -100, 100));
    assert_eq!(ext.margin_level(ALICE), Ok(whole(1)));
    ext.set_price(CurrencyId::FEUR, (3, 100));
    assert_eq!(ext.margin_level(ALICE), Ok(srational(3, 100)));
    // The protocol's account holds nothing to pay the loss to the pool, so the close fails; a
    // stop out goes on past a close that fails.
    assert_eq!(ext.trader_stop_out(ALICE), Ok(()));
    assert!(ext.protocol.positions(0).is_some());
}

#[test]
fn trader_stop_out_close_bigger_loss_position() {
    let mut ext = parity_zero_spread(balance_saturating_from_integer_currency_cent(100));
    ext.set_trader_risk_threshold(EUR_USD_PAIR, risk_threshold(70, 60));
    ext.set_balance(ALICE, MOCK_POOL, fixedi128_saturating_from_integer_currency_cent(100));
    let loss_position = simple_long(100, -100, 100);
    let bigger_loss_position = simple_long(100, -100, 150);
    ext.insert(loss_position);
    ext.insert(bigger_loss_position);
    assert_eq!(ext.trader_stop_out(ALICE), Ok(()));
    // Both positions have the same loss: one of them is closed, which makes the trader safe.
    let left = [0, 1].iter().filter(|id| ext.protocol.positions(**id).is_some()).count();
    assert_eq!(left, 1);
    assert_eq!(ext.margin_level(ALICE), Ok(whole(1)));
}

#[test]
fn trader_stop_out_closes_the_biggest_loss_first() {
    let mut ext = Builder::new()
        .spread_zero()
        .price(CurrencyId::FEUR, (1, 1))
        .pool_liquidity(balance_saturating_from_integer_currency_cent(100))
        .module_balance(balance_saturating_from_integer_currency_cent(100))
        .build();
    ext.set_trader_risk_threshold(EUR_USD_PAIR, risk_threshold(70, 60));
    ext.set_balance(ALICE, MOCK_POOL, fixedi128_saturating_from_integer_currency_cent(100));
    // Opened at 1 and at 1.1: at the price of 1 the second has lost 0.1.
    let small_loss = simple_long(100, -100, 100);
    let bigger_loss = simple_long(100, -110, 100);
    ext.insert(small_loss);
    ext.insert(bigger_loss);
    assert_eq!(ext.trader_stop_out(ALICE), Ok(()));
    assert_eq!(ext.protocol.positions(0), Some(small_loss));
    assert_eq!(ext.protocol.positions(1), None);
}

#[test]
fn liquidity_pool_margin_call_and_become_safe_work() {
    let mut ext = parity_zero_spread(balance_saturating_from_integer_currency_cent(100));
    ext.set_enp_risk_threshold(EUR_USD_PAIR, risk_threshold(99, 0));
    ext.set_ell_risk_threshold(EUR_USD_PAIR, risk_threshold(99, 0));
    ext.insert(simple_long(100, -100, 100));
    assert_eq!(ext.enp_and_ell(Action::Nothing), Ok((whole(1), whole(1))));
    assert_eq!(ext.pool_margin_call(), Err(merr(MarginError::SafePool)));
    assert_eq!(ext.pool_become_safe(), Ok(()));
    ext.set_enp_risk_threshold(EUR_USD_PAIR, risk_threshold(100, 0));
    assert_eq!(ext.pool_margin_call(), Ok(()));
    assert!(ext.protocol.is_pool_margin_called(MOCK_POOL));
    assert_eq!(ext.pool_become_safe(), Err(merr(MarginError::UnsafePool)));
    ext.set_enp_risk_threshold(EUR_USD_PAIR, risk_threshold(99, 0));
    assert_eq!(ext.pool_margin_call(), Ok(()));
    assert_eq!(ext.pool_become_safe(), Ok(()));
    assert!(!ext.protocol.is_pool_margin_called(MOCK_POOL));
}

#[test]
fn liquidity_pool_force_close_works() {
    let mut ext = Builder::new()
        .spread_percent(1)
        .price(CurrencyId::FEUR, (1, 1))
        .pool_liquidity(balance_saturating_from_integer_currency_cent(10_000_00))
        .build();
    ext.set_enp_risk_threshold(EUR_USD_PAIR, risk_threshold(0, 99));
    ext.set_ell_risk_threshold(EUR_USD_PAIR, risk_threshold(0, 99));
    ext.set_balance(ALICE, MOCK_POOL, fixedi128_saturating_from_integer_currency_cent(10_000_00));
    assert!(ext.open(ALICE, EUR_USD_PAIR, Leverage::LongTwenty, balance_saturating_from_integer_currency_cent(10_000_00), rational(2, 1)).is_ok());
    assert_eq!(ext.protocol.balances(ALICE, MOCK_POOL), fixedi128_saturating_from_integer_currency_cent(10_000_00));
    assert_eq!(ext.pool_force_close(), Err(merr(MarginError::NotReachedRiskThreshold)));
    ext.set_price(CurrencyId::FEUR, (2, 1));
    assert_eq!(ext.pool_force_close(), Ok(()));
    assert_eq!(ext.protocol.balances(ALICE, MOCK_POOL), fixedi128_saturating_from_integer_currency_cent(19_700_00));
    assert_eq!(ext.liquidity(), 0);
    assert_eq!(ext.ledger.free_balance(TREASURY_ACCOUNT, CurrencyId::AUSD), 300_000000000000000000);
}

#[test]
fn open_long_position_works() {
    let mut ext = jpy_107_funded();
    assert_eq!(
        ext.open(ALICE, EUR_JPY_PAIR, Leverage::LongTwenty, balance_saturating_from_integer_currency_cent(100_000_00), rational(142, 1)),
        Ok(0)
    );
    let mut p = eur_jpy_long();
    p.leveraged_debits = Fixed::from_inner(-14104090_000000000732500000);
    p.margin_held = Fixed::from_inner(6590_696261682242990228);
    assert_eq!(ext.protocol.positions(0), Some(p));
    assert_eq!(ext.protocol.next_position_id(), 1);
}

#[test]
fn open_short_position_works() {
    let mut ext = Builder::new()
        .price(CurrencyId::FJPY, (1, 106))
        .price(CurrencyId::FEUR, (1419, 1060))
        .pool_liquidity(balance_saturating_from_integer_currency_cent(100_000_00))
        .build();
    ext.set_balance(ALICE, MOCK_POOL, fixedi128_saturating_from_integer_currency_cent(10_000_00));
    assert_eq!(
        ext.open(ALICE, EUR_JPY_PAIR, Leverage::ShortTwenty, balance_saturating_from_integer_currency_cent(100_000_00), rational(141, 1)),
        Ok(0)
    );
    let mut p = eur_jpy_short();
    p.leveraged_debits = Fixed::from_inner(14175810_000000000585600000);
    p.margin_held = Fixed::from_inner(6686_702830188679240668);
    assert_eq!(ext.protocol.positions(0), Some(p));
}

#[test]
fn open_position_fails_if_no_base_price() {
    let mut ext = Builder::new().price(CurrencyId::FEUR, (1409, 1070)).pool_liquidity(balance_saturating_from_integer_currency_cent(100_000_00)).build();
    ext.set_balance(ALICE, MOCK_POOL, fixedi128_saturating_from_integer_currency_cent(10_000_00));
    assert_eq!(
        ext.open(ALICE, EUR_JPY_PAIR, Leverage::LongTwenty, balance_saturating_from_integer_currency_cent(100_000_00), rational(142, 1)),
        Err(merr(MarginError::NoPrice))
    );
}

#[test]
fn open_position_fails_if_no_quote_price() {
    let mut ext = Builder::new().price(CurrencyId::FJPY, (1, 107)).pool_liquidity(balance_saturating_from_integer_currency_cent(100_000_00)).build();
    ext.set_balance(ALICE, MOCK_POOL, fixedi128_saturating_from_integer_currency_cent(10_000_00));
    assert_eq!(
        ext.open(ALICE, EUR_JPY_PAIR, Leverage::LongTwenty, balance_saturating_from_integer_currency_cent(100_000_00), rational(142, 1)),
        Err(merr(MarginError::NoPrice))
    );
}

#[test]
fn open_long_position_fails_if_market_price_too_high() {
    let mut ext = jpy_107_funded();
    assert_eq!(
        ext.open(ALICE, EUR_JPY_PAIR, Leverage::LongTwenty, balance_saturating_from_integer_currency_cent(100_000_00), rational(141, 1)),
        Err(merr(MarginError::MarketPriceTooHigh))
    );
}

#[test]
fn open_short_position_fails_if_market_price_too_low() {
    let mut ext = Builder::new()
        .price(CurrencyId::FJPY, (1, 106))
        .price(CurrencyId::FEUR, (1419, 1060))
        .pool_liquidity(balance_saturating_from_integer_currency_cent(100_000_00))
        .build();
    ext.set_balance(ALICE, MOCK_POOL, fixedi128_saturating_from_integer_currency_cent(10_000_00));
    assert_eq!(
        ext.open(ALICE, EUR_JPY_PAIR, Leverage::ShortTwenty, balance_saturating_from_integer_currency_cent(100_000_00), rational(142, 1)),
        Err(merr(MarginError::MarketPriceTooLow))
    );
}

#[test]
fn open_position_fails_if_leveraged_debits_out_of_bound() {
    let mut ext = Builder::new()
        .price(CurrencyId::FJPY, (1, 1))
        .price(CurrencyId::FEUR, (2, 1))
        .pool_liquidity(u128::MAX)
        .build();
    ext.set_balance(ALICE, MOCK_POOL, Fixed::max_value());
    assert_eq!(
        ext.open(ALICE, EUR_JPY_PAIR, Leverage::LongTwenty, u128::MAX / 2 + 1, rational(142, 1)),
        Err(merr(MarginError::NumOutOfBound))
    );
}

#[test]
fn open_position_fails_if_insufficient_free_margin() {
    let mut ext = Builder::new()
        .price(CurrencyId::FJPY, (1, 1))
        .price(CurrencyId::FEUR, (2, 1))
        .pool_liquidity(u128::MAX)
        .build();
    assert_eq!(
        ext.open(ALICE, EUR_JPY_PAIR, Leverage::LongTwo, 1, rational(142, 1)),
        Err(merr(MarginError::InsufficientFreeMargin))
    );
}

#[test]
fn open_position_fails_if_would_reach_enp_threshold() {
    let mut ext = Builder::new()
        .price(CurrencyId::FJPY, (1, 107))
        .price(CurrencyId::FEUR, (1409, 1070))
        .pool_liquidity(balance_saturating_from_integer_currency_cent(659_00))
        .build();
    ext.set_enp_risk_threshold(EUR_JPY_PAIR, risk_threshold(10, 5));
    ext.set_balance(ALICE, MOCK_POOL, fixedi128_saturating_from_integer_currency_cent(10_000_00));
    assert_eq!(
        ext.open(ALICE, EUR_JPY_PAIR, Leverage::LongTwenty, balance_saturating_from_integer_currency_cent(100_000_00), rational(142, 1)),
        Err(merr(MarginError::PoolWouldBeUnsafe))
    );
}

#[test]
fn open_position_fails_if_would_reach_ell_threshold() {
    let mut ext = Builder::new()
        .price(CurrencyId::FJPY, (1, 107))
        .price(CurrencyId::FEUR, (1409, 1070))
        .pool_liquidity(balance_saturating_from_integer_currency_cent(659_00))
        .build();
    ext.set_ell_risk_threshold(EUR_JPY_PAIR, risk_threshold(10, 5));
    ext.set_balance(ALICE, MOCK_POOL, fixedi128_saturating_from_integer_currency_cent(10_000_00));
    assert_eq!(
        ext.open(ALICE, EUR_JPY_PAIR, Leverage::LongTwenty, balance_saturating_from_integer_currency_cent(100_000_00), rational(142, 1)),
        Err(merr(MarginError::PoolWouldBeUnsafe))
    );
}

#[test]
fn open_position_fails_if_run_out_of_position_id() {
    let mut ext = Builder::new()
        .price(CurrencyId::FJPY, (1, 107))
        .price(CurrencyId::FEUR, (1409, 1070))
        .pool_liquidity(balance_saturating_from_integer_currency_cent(100_000_00))
        .build();
    ext.set_balance(ALICE, MOCK_POOL, fixedi128_saturating_from_integer_currency_cent(10_000_00));
    ext.protocol.set_next_position_id(u64::MAX);
    assert_eq!(
        ext.open(ALICE, EUR_JPY_PAIR, Leverage::LongTwenty, balance_saturating_from_integer_currency_cent(100_000_00), rational(142, 1)),
        Err(merr(MarginError::NoAvailablePositionId))
    );
    assert_eq!(ext.protocol.next_position_id(), u64::MAX);
}

#[test]
fn free_margin_cannot_be_used_across_pool() {
    let mut ext = Builder::new()
        .price(CurrencyId::FJPY, (1, 107))
        .price(CurrencyId::FEUR, (1409, 1070))
        .pool_liquidity(balance_saturating_from_integer_currency_cent(100_000_00))
        .build();
    ext.set_balance(ALICE, MOCK_POOL_1, fixedi128_saturating_from_integer_currency_cent(10_000_00));
    assert_eq!(
        ext.open(ALICE, EUR_JPY_PAIR, Leverage::LongTwenty, balance_saturating_from_integer_currency_cent(100_000_00), rational(142, 1)),
        Err(merr(MarginError::InsufficientFreeMargin))
    );
}

#[test]
fn close_loss_position_works() {
    let alice_initial = fixedi128_saturating_from_integer_currency_cent(10_000_00);
    let mut ext = Builder::new()
        .module_balance(balance_saturating_from_integer_currency_cent(10_000_00))
        .price(CurrencyId::FEUR, (12, 10))
        .pool_liquidity(balance_saturating_from_integer_currency_cent(100_000_00))
        .build();
    ext.set_balance(ALICE, MOCK_POOL, alice_initial);
    let id = ext.insert(eur_usd_long_1());
    assert_eq!(ext.close(ALICE, id, rational(11, 10)), Ok(()));
    assert_eq!(ext.protocol.balances(ALICE, MOCK_POOL), Fixed::from_inner(9415301035390000000000));
    assert_eq!(ext.liquidity(), 100584698964610000000000);
    assert_eq!(ext.ledger.free_balance(MARGIN_ACCOUNT, CurrencyId::AUSD), 9415301035390000000000);
    assert_eq!(ext.protocol.positions(id), None);
}

#[test]
fn close_loss_position_realizing_part_on_not_enough_equity() {
    let mut ext = Builder::new()
        .module_balance(balance_saturating_from_integer_currency_cent(1_00))
        .pool_liquidity(balance_saturating_from_integer_currency_cent(1_000_00))
        .spread_zero()
        .price(CurrencyId::FEUR, (10, 1))
        .build();
    ext.set_trader_risk_threshold(EUR_USD_PAIR, risk_threshold(100, 0));
    ext.set_balance(ALICE, MOCK_POOL, fixedi128_saturating_from_integer_currency_cent(1_00));
    ext.insert(position(EUR_USD_PAIR, Leverage::LongTen, fixedi128_saturating_from_integer_currency_cent(10_00), fixedi128_saturating_from_integer_currency_cent(-100_00), whole(0), fixedi128_saturating_from_integer_currency_cent(1_00)));
    ext.set_price(CurrencyId::FEUR, (1, 1));
    assert_eq!(ext.close(ALICE, 0, UFixed::zero()), Ok(()));
    assert_eq!(ext.liquidity(), balance_saturating_from_integer_currency_cent(1_001_00));
    assert_eq!(ext.protocol.balances(ALICE, MOCK_POOL), Fixed::zero());
}

#[test]
fn close_loss_position_owning_and_repayment() {
    let mut ext = Builder::new()
        .module_balance(balance_saturating_from_integer_currency_cent(2_00))
        .pool_liquidity(balance_saturating_from_integer_currency_cent(1_000_00))
        .spread_zero()
        .price(CurrencyId::FEUR, (10, 1))
        .price(CurrencyId::FJPY, (10, 1))
        .build();
    ext.set_trader_risk_threshold(EUR_USD_PAIR, risk_threshold(100, 0));
    ext.set_balance(ALICE, MOCK_POOL, fixedi128_saturating_from_integer_currency_cent(2_00));
    ext.insert(position(EUR_USD_PAIR, Leverage::LongTen, fixedi128_saturating_from_integer_currency_cent(10_00), fixedi128_saturating_from_integer_currency_cent(-100_00), whole(0), fixedi128_saturating_from_integer_currency_cent(1_00)));
    ext.insert(position(JPY_USD_PAIR, Leverage::LongFive, fixedi128_saturating_from_integer_currency_cent(5_00), fixedi128_saturating_from_integer_currency_cent(-5_00), whole(0), fixedi128_saturating_from_integer_currency_cent(1_00)));
    ext.set_price(CurrencyId::FEUR, (1, 1));
    let equity = ext.protocol.equity_of_trader(&ext.pools, &ext.prices, ALICE, MOCK_POOL).unwrap();
    assert!(equity.into_inner() < 0);
    assert_eq!(ext.close(ALICE, 0, UFixed::zero()), Ok(()));
    assert_eq!(ext.liquidity(), balance_saturating_from_integer_currency_cent(1_002_00));
    assert_eq!(ext.protocol.balances(ALICE, MOCK_POOL), whole(-45));
    assert_eq!(ext.close(ALICE, 1, UFixed::zero()), Ok(()));
    assert_eq!(ext.liquidity(), balance_saturating_from_integer_currency_cent(1_002_00));
    assert_eq!(ext.protocol.balances(ALICE, MOCK_POOL), Fixed::zero());
}

#[test]
fn close_profit_position_works() {
    let alice_initial = fixedi128_saturating_from_integer_currency_cent(10_000_00);
    let mut ext = Builder::new()
        .module_balance(balance_saturating_from_integer_currency_cent(10_000_00))
        .price(CurrencyId::FEUR, (12, 10))
        .pool_liquidity(balance_saturating_from_integer_currency_cent(100_000_00))
        .build();
    ext.set_balance(ALICE, MOCK_POOL, alice_initial);
    let p = eur_usd_long_2();
    let id = ext.insert(p);
    let snapshot = positions_snapshot(1, p.leveraged_held, p.leveraged_debits, whole(0), whole(0));
    assert_eq!(ext.protocol.pool_positions_snapshots(MOCK_POOL, EUR_USD_PAIR), snapshot);
    assert_eq!(ext.close(ALICE, id, rational(11, 10)), Ok(()));
    assert_eq!(
        ext.protocol.pool_positions_snapshots(MOCK_POOL, EUR_USD_PAIR),
        positions_snapshot(0, whole(0), whole(0), whole(0), whole(0))
    );
    assert_eq!(ext.enp_and_ell(Action::Nothing), Ok((Fixed::max_value(), Fixed::max_value())));
    assert_eq!(ext.protocol.balances(ALICE, MOCK_POOL), Fixed::from_inner(10438691023010000000000));
    assert_eq!(ext.liquidity(), 99561308976990000000000);
    assert_eq!(ext.ledger.free_balance(MARGIN_ACCOUNT, CurrencyId::AUSD), 10438691023010000000000);
}

fn eur_12_closing() -> Ext {
    let mut ext = Builder::new()
        .module_balance(balance_saturating_from_integer_currency_cent(10_000_00))
        .price(CurrencyId::FEUR, (12, 10))
        .pool_liquidity(balance_saturating_from_integer_currency_cent(100_000_00))
        .build();
    ext.set_balance(ALICE, MOCK_POOL, fixedi128_saturating_from_integer_currency_cent(10_000_00));
    ext
}

#[test]
fn close_position_fails_if_position_not_found() {
    let mut ext = eur_12_closing();
    assert_eq!(ext.close(ALICE, 0, rational(11, 10)), Err(merr(MarginError::PositionNotFound)));
}

#[test]
fn close_position_fails_if_position_not_opened_by_trader() {
    let mut ext = eur_12_closing();
    ext.insert(eur_usd_long_1());
    assert_eq!(ext.close(BOB, 0, rational(11, 10)), Err(merr(MarginError::PositionNotOpenedByTrader)));
}

#[test]
fn close_position_fails_if_unrealized_out_of_bound() {
    let mut ext = Builder::new()
        .module_balance(balance_saturating_from_integer_currency_cent(10_000_00))
        .price(CurrencyId::FEUR, (u128::MAX, 1))
        .pool_liquidity(balance_saturating_from_integer_currency_cent(100_000_00))
        .build();
    ext.set_balance(ALICE, MOCK_POOL, fixedi128_saturating_from_integer_currency_cent(10_000_00));
    ext.insert(eur_usd_long_1());
    assert_eq!(ext.close(ALICE, 0, rational(11, 10)), Err(merr(MarginError::NumOutOfBound)));
}

#[test]
fn close_position_fails_if_no_base_price() {
    let mut ext = Builder::new()
        .module_balance(balance_saturating_from_integer_currency_cent(10_000_00))
        .price(CurrencyId::FEUR, (1409, 1070))
        .pool_liquidity(balance_saturating_from_integer_currency_cent(100_000_00))
        .build();
    ext.set_balance(ALICE, MOCK_POOL, fixedi128_saturating_from_integer_currency_cent(10_000_00));
    ext.insert(eur_jpy_long());
    assert_eq!(ext.close(ALICE, 0, rational(1410, 1070)), Err(merr(MarginError::NoPrice)));
}

#[test]
fn close_position_fails_if_no_quote_price() {
    let mut ext = Builder::new()
        .module_balance(balance_saturating_from_integer_currency_cent(10_000_00))
        .price(CurrencyId::FJPY, (1, 107))
        .pool_liquidity(balance_saturating_from_integer_currency_cent(100_000_00))
        .build();
    ext.set_balance(ALICE, MOCK_POOL, fixedi128_saturating_from_integer_currency_cent(10_000_00));
    ext.insert(eur_jpy_long());
    assert_eq!(ext.close(ALICE, 0, rational(1390, 1070)), Err(merr(MarginError::NoPrice)));
}

#[test]
fn close_long_position_fails_if_market_price_too_low() {
    let mut ext = eur_12_closing();
    ext.insert(eur_usd_long_1());
    assert_eq!(ext.close(ALICE, 0, rational(12, 10)), Err(merr(MarginError::MarketPriceTooLow)));
}

#[test]
fn close_short_position_fails_if_market_price_too_high() {
    let mut ext = eur_12_closing();
    ext.insert(eur_usd_short_1());
    assert_eq!(ext.close(ALICE, 0, rational(12, 10)), Err(merr(MarginError::MarketPriceTooHigh)));
}

#[test]
fn deposit_works() {
    let mut ext = Builder::new().alice_balance(1000).build();
    assert_eq!(ext.ledger.free_balance(ALICE, CurrencyId::AUSD), 1000);
    assert_eq!(ext.ledger.free_balance(MARGIN_ACCOUNT, CurrencyId::AUSD), 0);
    assert_eq!(ext.protocol.deposit(&mut ext.ledger, ALICE, MOCK_POOL, 500), Ok(()));
    assert_eq!(ext.ledger.free_balance(ALICE, CurrencyId::AUSD), 500);
    assert_eq!(ext.ledger.free_balance(MARGIN_ACCOUNT, CurrencyId::AUSD), 500);
    assert_eq!(ext.protocol.balances(ALICE, MOCK_POOL), Fixed::from_inner(500));
}

#[test]
fn deposit_fails_if_transfer_err() {
    let mut ext = Builder::new().build();
    assert_eq!(
        ext.protocol.deposit(&mut ext.ledger, ALICE, MOCK_POOL, 500),
        Err(DispatchError::Tokens(TokenError::BalanceTooLow))
    );
}

#[test]
fn withdraw_works() {
    let mut ext = Builder::new().module_balance(1000).build();
    ext.set_balance(ALICE, MOCK_POOL, Fixed::from_inner(1000));
    assert_eq!(ext.protocol.withdraw(&ext.pools, &ext.prices, &mut ext.ledger, ALICE, MOCK_POOL, 500), Ok(()));
    assert_eq!(ext.ledger.free_balance(ALICE, CurrencyId::AUSD), 500);
    assert_eq!(ext.protocol.balances(ALICE, MOCK_POOL), Fixed::from_inner(500));
}

#[test]
fn trader_can_withdraw_unrealized_profit() {
    let mut ext = Builder::new().module_balance(balance_saturating_from_integer_currency_cent(10_00)).spread_zero().price(CurrencyId::FEUR, (1, 1)).build();
    ext.set_trader_risk_threshold(EUR_USD_PAIR, risk_threshold(100, 0));
    ext.set_balance(ALICE, MOCK_POOL, fixedi128_saturating_from_integer_currency_cent(100));
    ext.insert(simple_long(10_00, -100, 50));
    assert_eq!(ext.protocol.free_margin(&ext.pools, &ext.prices, ALICE, MOCK_POOL), Ok(fixedi128_saturating_from_integer_currency_cent(9_50)));
    assert_eq!(
        ext.protocol.withdraw(&ext.pools, &ext.prices, &mut ext.ledger, ALICE, MOCK_POOL, balance_saturating_from_integer_currency_cent(9_50)),
        Ok(())
    );
}

#[test]
fn withdraw_fails_if_insufficient_free_margin() {
    let mut ext = Builder::new().spread_zero().price(CurrencyId::FEUR, (1, 1)).build();
    ext.set_trader_risk_threshold(EUR_USD_PAIR, risk_threshold(100, 0));
    ext.set_balance(ALICE, MOCK_POOL, fixedi128_saturating_from_integer_currency_cent(100));
    ext.insert(simple_long(100, -100, 100));
    assert_eq!(ext.protocol.free_margin(&ext.pools, &ext.prices, ALICE, MOCK_POOL), Ok(fixedi128_saturating_from_integer_currency_cent(0)));
    assert_eq!(
        ext.protocol.withdraw(&ext.pools, &ext.prices, &mut ext.ledger, ALICE, MOCK_POOL, balance_saturating_from_integer_currency_cent(1)),
        Err(merr(MarginError::InsufficientFreeMargin))
    );
}

#[test]
fn offchain_worker_should_work() {
    let mut ext = parity_zero_spread(balance_saturating_from_integer_currency_cent(200_00));
    ext.set_trader_risk_threshold(EUR_USD_PAIR, risk_threshold(3, 1));
    ext.set_enp_risk_threshold(EUR_USD_PAIR, risk_threshold(10, 2));
    ext.set_ell_risk_threshold(EUR_USD_PAIR, risk_threshold(50, 20));
    ext.set_balance(ALICE, MOCK_POOL, fixedi128_saturating_from_integer_currency_cent(10_00));
    assert_eq!(ext.margin_level(ALICE), Ok(Fixed::max_value()));
    assert!(ext.open(ALICE, EUR_USD_PAIR, Leverage::LongTwenty, balance_saturating_from_integer_currency_cent(200_00), rational(100, 1)).is_ok());
    assert_eq!(ext.margin_level(ALICE), Ok(srational(5, 100)));
    assert_eq!(ext.protocol.get_traders(), vec![(ALICE, MOCK_POOL)]);
    assert_eq!(ext.protocol.get_pools(), vec![MOCK_POOL]);
    let trader_call = |ext: &Ext| ext.protocol.trader_offchain_call(&ext.pools, &ext.prices, ALICE, MOCK_POOL);
    let pool_call = |ext: &Ext| ext.protocol.pool_offchain_call(&ext.pools, &ext.prices, MOCK_POOL);

    ext.set_price(CurrencyId::FEUR, (97, 100));
    assert_eq!(ext.margin_level(ALICE), Ok(srational(2, 100)));
    assert_eq!(trader_call(&ext), Ok(Some(OffchainCall::TraderMarginCall(ALICE, MOCK_POOL))));

    ext.set_price(CurrencyId::FEUR, (96, 100));
    assert_eq!(ext.margin_level(ALICE), Ok(srational(1, 100)));
    assert_eq!(trader_call(&ext), Ok(Some(OffchainCall::TraderStopOut(ALICE, MOCK_POOL))));

    ext.set_price(CurrencyId::FEUR, (97, 100));
    assert_eq!(ext.trader_margin_call(ALICE), Ok(()));
    ext.set_price(CurrencyId::FEUR, (110, 100));
    assert_eq!(trader_call(&ext), Ok(Some(OffchainCall::TraderBecomeSafe(ALICE, MOCK_POOL))));
    assert_eq!(ext.trader_become_safe(ALICE), Ok(()));

    ext.set_price(CurrencyId::FEUR, (150, 100));
    assert_eq!(trader_call(&ext), Ok(None));
    assert_eq!(pool_call(&ext), Ok(Some(OffchainCall::LiquidityPoolMarginCall(MOCK_POOL))));

    ext.set_price(CurrencyId::FEUR, (180, 100));
    assert_eq!(pool_call(&ext), Ok(Some(OffchainCall::LiquidityPoolForceClose(MOCK_POOL))));

    ext.set_price(CurrencyId::FEUR, (150, 100));
    assert_eq!(ext.pool_margin_call(), Ok(()));
    ext.set_price(CurrencyId::FEUR, (110, 100));
    assert_eq!(pool_call(&ext), Ok(Some(OffchainCall::LiquidityPoolBecomeSafe(MOCK_POOL))));
}

#[test]
fn liquidity_pool_manager_can_remove_works() {
    let mut ext = Builder::new().build();
    assert!(ext.protocol.can_remove(MOCK_POOL));
    ext.insert(eur_jpy_long());
    assert!(!ext.protocol.can_remove(MOCK_POOL));
    assert!(ext.protocol.can_remove(MOCK_POOL_1));
}

#[test]
fn liquidity_pool_manager_get_required_deposit_works() {
    let mut ext = parity_zero_spread(0);
    ext.set_enp_risk_threshold(EUR_USD_PAIR, risk_threshold(100, 0));
    ext.set_ell_risk_threshold(EUR_USD_PAIR, risk_threshold(90, 0));
    ext.insert(simple_long(100, -100, 100));
    assert_eq!(ext.protocol.pool_required_deposit(&ext.pools, &ext.prices, MOCK_POOL), Some(fixedi128_saturating_from_integer_currency_cent(100)));
    ext.set_enp_risk_threshold(EUR_USD_PAIR, risk_threshold(80, 0));
    assert_eq!(ext.protocol.pool_required_deposit(&ext.pools, &ext.prices, MOCK_POOL), Some(fixedi128_saturating_from_integer_currency_cent(90)));
    ext.ledger.set_balance(POOL_OWNER, CurrencyId::AUSD, balance_saturating_from_integer_currency_cent(100));
    assert_eq!(ext.pools.base_mut().deposit_liquidity(&mut ext.ledger, POOL_OWNER, MOCK_POOL, balance_saturating_from_integer_currency_cent(100)), Ok(()));
    assert_eq!(ext.protocol.pool_required_deposit(&ext.pools, &ext.prices, MOCK_POOL), Some(fixedi128_saturating_from_integer_currency_cent(0)));
}

#[test]
fn trader_open_positions_limit() {
    let mut ext = parity_zero_spread(balance_saturating_from_integer_currency_cent(1000_00));
    ext.set_enp_risk_threshold(EUR_USD_PAIR, risk_threshold(90, 0));
    ext.set_ell_risk_threshold(EUR_USD_PAIR, risk_threshold(100, 0));
    ext.set_balance(ALICE, MOCK_POOL, fixedi128_saturating_from_integer_currency_cent(100_00));
    for _ in 0..200 {
        ext.insert(simple_long(1, -1, 0));
    }
    assert_eq!(
        ext.open(ALICE, EUR_USD_PAIR, Leverage::LongTen, balance_saturating_from_integer_currency_cent(10_00), rational(100, 1)),
        Err(merr(MarginError::CannotOpenMorePosition))
    );
}

#[test]
fn pool_open_positions_limit() {
    let mut ext = parity_zero_spread(balance_saturating_from_integer_currency_cent(1000_00));
    ext.set_enp_risk_threshold(EUR_USD_PAIR, risk_threshold(100, 0));
    ext.set_ell_risk_threshold(EUR_USD_PAIR, risk_threshold(90, 0));
    ext.set_balance(ALICE, MOCK_POOL, fixedi128_saturating_from_integer_currency_cent(100_00));
    for _ in 0..300 {
        let _ = ext.open(ALICE, EUR_USD_PAIR, Leverage::LongTen, balance_saturating_from_integer_currency_cent(1_00), rational(100, 1));
    }
    assert_eq!(ext.protocol.pool_positions_snapshots(MOCK_POOL, EUR_USD_PAIR).positions_count, 200);
    assert_eq!(
        ext.open(ALICE, EUR_USD_PAIR, Leverage::LongTen, balance_saturating_from_integer_currency_cent(10_00), rational(100, 1)),
        Err(merr(MarginError::CannotOpenMorePosition))
    );
}

#[test]
fn set_trading_pair_risk_threshold_works() {
    let mut ext = parity_zero_spread(balance_saturating_from_integer_currency_cent(1000_00));
    assert_eq!(ext.protocol.trader_risk_threshold(EUR_USD_PAIR), Some(risk_threshold(0, 0)));
    assert_eq!(ext.protocol.liquidity_pool_ell_threshold(EUR_USD_PAIR), Some(risk_threshold(0, 0)));
    assert_eq!(ext.protocol.liquidity_pool_enp_threshold(EUR_USD_PAIR), Some(risk_threshold(0, 0)));
    assert_eq!(ext.protocol.set_trading_pair_risk_threshold(ROOT, EUR_USD_PAIR, None, None, None), Ok(()));
    assert_eq!(ext.protocol.set_trading_pair_risk_threshold(BOB, EUR_USD_PAIR, None, None, None), Err(DispatchError::BadOrigin));
    ext.set_trader_risk_threshold(EUR_USD_PAIR, risk_threshold(1, 2));
    assert_eq!(ext.protocol.trader_risk_threshold(EUR_USD_PAIR), Some(risk_threshold(1, 2)));
    assert_eq!(ext.protocol.liquidity_pool_enp_threshold(EUR_USD_PAIR), Some(risk_threshold(0, 0)));
    assert_eq!(ext.protocol.liquidity_pool_ell_threshold(EUR_USD_PAIR), Some(risk_threshold(0, 0)));
    ext.set_enp_risk_threshold(EUR_USD_PAIR, risk_threshold(3, 4));
    assert_eq!(ext.protocol.trader_risk_threshold(EUR_USD_PAIR), Some(risk_threshold(1, 2)));
    assert_eq!(ext.protocol.liquidity_pool_enp_threshold(EUR_USD_PAIR), Some(risk_threshold(3, 4)));
    assert_eq!(ext.protocol.liquidity_pool_ell_threshold(EUR_USD_PAIR), Some(risk_threshold(0, 0)));
    ext.set_ell_risk_threshold(EUR_USD_PAIR, risk_threshold(5, 6));
    assert_eq!(ext.protocol.trader_risk_threshold(EUR_USD_PAIR), Some(risk_threshold(1, 2)));
    assert_eq!(ext.protocol.liquidity_pool_enp_threshold(EUR_USD_PAIR), Some(risk_threshold(3, 4)));
    assert_eq!(ext.protocol.liquidity_pool_ell_threshold(EUR_USD_PAIR), Some(risk_threshold(5, 6)));
}

#[test]
fn ensure_can_enable_trading_pair_works() {
    let mut ext = parity_zero_spread(balance_saturating_from_integer_currency_cent(1000_00));
    assert_eq!(
        ext.protocol.ensure_can_enable_trading_pair(&ext.pools, &ext.prices, MOCK_POOL, JPY_USD_PAIR),
        Err(merr(MarginError::NoRiskThreshold))
    );
    ext.insert(eur_usd_long_1());
    assert_eq!(
        ext.enp_and_ell(Action::OpenPosition(eur_usd_long_1())),
        Ok((Fixed::from_inner(0_107101500000000000), Fixed::from_inner(0_107101500000000000)))
    );
    let can = |ext: &Ext| ext.protocol.ensure_can_enable_trading_pair(&ext.pools, &ext.prices, MOCK_POOL, EUR_USD_PAIR);
    assert_eq!(can(&ext), Ok(()));
    ext.set_ell_risk_threshold(EUR_USD_PAIR, risk_threshold(100, 0));
    assert_eq!(can(&ext), Err(merr(MarginError::PoolWouldBeUnsafe)));
    ext.set_ell_risk_threshold(EUR_USD_PAIR, risk_threshold(5, 5));
    assert_eq!(can(&ext), Ok(()));
}

#[test]
fn open_position_check_trader_works() {
    let mut ext = Builder::new()
        .spread_zero()
        .price(CurrencyId::FEUR, (1, 1))
        .price(CurrencyId::FJPY, (1, 105))
        .pool_liquidity(balance_saturating_from_integer_currency_cent(1000_00))
        .build();
    ext.set_trader_risk_threshold(EUR_USD_PAIR, risk_threshold(3, 5));
    ext.set_trader_risk_threshold(EUR_JPY_PAIR, risk_threshold(5, 3));
    ext.set_trader_risk_threshold(JPY_USD_PAIR, risk_threshold(6, 7));
    ext.insert(eur_usd_long_1());
    ext.insert(eur_jpy_short());
    assert_eq!(ext.protocol.risk_threshold_of_trader(ALICE, MOCK_POOL), risk_threshold(5, 5));
    assert_eq!(
        ext.protocol.check_trader(&ext.pools, &ext.prices, ALICE, MOCK_POOL, Action::OpenPosition(eur_usd_long_1())),
        Ok(Risk::Safe)
    );
    assert_eq!(
        ext.protocol.check_trader(&ext.pools, &ext.prices, ALICE, MOCK_POOL, Action::OpenPosition(jpy_usd_long_1())),
        Ok(Risk::StopOut)
    );
}

#[test]
fn open_position_check_pool_works() {
    let mut ext = Builder::new()
        .spread_zero()
        .price(CurrencyId::FEUR, (1, 1))
        .price(CurrencyId::FJPY, (70589, 10000))
        .pool_liquidity(balance_saturating_from_integer_currency_cent(100_000_000_00))
        .build();
    ext.set_enp_risk_threshold(EUR_USD_PAIR, risk_threshold(30, 50));
    ext.set_enp_risk_threshold(EUR_JPY_PAIR, risk_threshold(50, 30));
    ext.set_enp_risk_threshold(JPY_USD_PAIR, risk_threshold(60, 70));
    ext.set_ell_risk_threshold(JPY_USD_PAIR, risk_threshold(80, 90));
    ext.set_ell_risk_threshold(EUR_USD_PAIR, risk_threshold(10, 20));
    ext.insert(eur_usd_long_1());
    ext.insert(eur_jpy_short());
    assert_eq!(
        ext.protocol.enp_and_ell_risk_threshold_of_pool(MOCK_POOL),
        (risk_threshold(50, 50), risk_threshold(10, 20))
    );
    assert_eq!(
        ext.enp_and_ell(Action::OpenPosition(eur_usd_short_1())),
        Ok((Fixed::from_inner(0_182650303333333332), Fixed::from_inner(0_182650303333333332)))
    );
    assert_eq!(
        ext.protocol.check_pool(&ext.pools, &ext.prices, MOCK_POOL, Action::OpenPosition(eur_usd_short_1())),
        Ok(Risk::StopOut)
    );
    assert_eq!(
        ext.enp_and_ell(Action::OpenPosition(jpy_usd_long_1())),
        Ok((Fixed::from_inner(0_060487576858117431), Fixed::from_inner(0_060487576858117431)))
    );
    assert_eq!(
        ext.protocol.check_pool(&ext.pools, &ext.prices, MOCK_POOL, Action::OpenPosition(jpy_usd_long_1())),
        Ok(Risk::StopOut)
    );
}

#[test]
fn risk_threshold_of_trader_is_per_pool() {
    let mut ext = Builder::new()
        .spread_zero()
        .price(CurrencyId::FEUR, (1, 1))
        .price(CurrencyId::FJPY, (1, 105))
        .pool_liquidity(balance_saturating_from_integer_currency_cent(1000_00))
        .build();
    ext.set_trader_risk_threshold(EUR_USD_PAIR, risk_threshold(3, 5));
    ext.set_trader_risk_threshold(EUR_JPY_PAIR, risk_threshold(5, 3));
    ext.set_trader_risk_threshold(JPY_USD_PAIR, risk_threshold(6, 7));
    ext.insert(eur_usd_long_1());
    ext.insert(eur_jpy_short());
    assert_eq!(ext.protocol.risk_threshold_of_trader(ALICE, MOCK_POOL), risk_threshold(5, 5));
    assert_eq!(ext.protocol.risk_threshold_of_trader(ALICE, MOCK_POOL_1), risk_threshold(0, 0));
}

#[test]
fn deposit_then_withdraw_gives_the_balance_back() {
    let mut ext = Builder::new().alice_balance(1000).build();
    assert_eq!(ext.protocol.deposit(&mut ext.ledger, ALICE, MOCK_POOL, 700), Ok(()));
    assert_eq!(ext.protocol.withdraw(&ext.pools, &ext.prices, &mut ext.ledger, ALICE, MOCK_POOL, 700), Ok(()));
    assert_eq!(ext.ledger.free_balance(ALICE, CurrencyId::AUSD), 1000);
    assert_eq!(ext.protocol.balances(ALICE, MOCK_POOL), Fixed::zero());
}

#[test]
fn closing_every_position_lets_the_pool_be_removed() {
    let mut ext = eur_12_closing();
    let id = ext.insert(eur_usd_long_2());
    assert!(!ext.protocol.can_remove(MOCK_POOL));
    assert_eq!(ext.close(ALICE, id, rational(11, 10)), Ok(()));
    assert!(ext.protocol.can_remove(MOCK_POOL));
}

#[test]
fn trader_state_reports_the_trader_values() {
    let mut ext = eur_12_with_four_positions(balance_saturating_from_integer_currency_cent(100_000_00));
    ext.set_balance(ALICE, MOCK_POOL, fixedi128_saturating_from_integer_currency_cent(120_000_00));
    let state = ext.protocol.trader_state(&ext.pools, &ext.prices, ALICE, MOCK_POOL);
    assert_eq!(state.equity, Fixed::from_inner(116614700431840000000000));
    assert_eq!(state.margin_level, Fixed::from_inner(195340363524869506));
    assert_eq!(state.margin_held, ext.protocol.margin_held(ALICE, MOCK_POOL));
    assert_eq!(Ok(state.free_margin), ext.protocol.free_margin(&ext.pools, &ext.prices, ALICE, MOCK_POOL));
    assert_eq!(
        Ok(state.unrealized_pl),
        ext.protocol.unrealized_pl_of_trader(&ext.pools, &ext.prices, ALICE, MOCK_POOL)
    );
    // Without a price nothing can be computed, and every computed value is reported as zero.
    ext.prices.set_price(CurrencyId::FEUR, None);
    let state = ext.protocol.trader_state(&ext.pools, &ext.prices, ALICE, MOCK_POOL);
    assert_eq!(state.equity, Fixed::zero());
    assert_eq!(state.margin_level, Fixed::zero());
    assert_eq!(state.margin_held, ext.protocol.margin_held(ALICE, MOCK_POOL));
}

#[test]
fn pool_state_reports_enp_ell_and_required_deposit() {
    let ext = eur_12_with_four_positions(balance_saturating_from_integer_currency_cent(100_000_00));
    let state = ext.protocol.pool_state(&ext.pools, &ext.prices, MOCK_POOL).unwrap();
    assert_eq!(state.enp, Fixed::from_inner(0_860809166666666667));
    assert_eq!(state.ell, Fixed::from_inner(0_286936388888888889));
    assert_eq!(Some(state.required_deposit), ext.protocol.pool_required_deposit(&ext.pools, &ext.prices, MOCK_POOL));
    assert_eq!(ext.protocol.pool_state(&ext.pools, &ext.prices, MOCK_POOL_1), None);
}

#[test]
fn offchain_calls_follow_the_trader_and_pool_checks() {
    let mut ext = parity_zero_spread(balance_saturating_from_integer_currency_cent(200_00));
    ext.set_trader_risk_threshold(EUR_USD_PAIR, risk_threshold(3, 1));
    ext.set_enp_risk_threshold(EUR_USD_PAIR, risk_threshold(10, 2));
    ext.set_ell_risk_threshold(EUR_USD_PAIR, risk_threshold(50, 20));
    ext.set_balance(ALICE, MOCK_POOL, fixedi128_saturating_from_integer_currency_cent(10_00));
    assert!(ext.open(ALICE, EUR_USD_PAIR, Leverage::LongTwenty, balance_saturating_from_integer_currency_cent(200_00), rational(100, 1)).is_ok());
    let calls = |ext: &Ext| {
        let traders = ext.protocol.get_traders();
        let pools = ext.protocol.get_pools();
        let r = ext.protocol.offchain_calls(&ext.pools, &ext.prices, &traders, &pools);
        assert_eq!(ext.protocol.worker_calls(&ext.pools, &ext.prices), r);
        r
    };
    assert_eq!(calls(&ext), (vec![], false));
    ext.set_price(CurrencyId::FEUR, (97, 100));
    assert_eq!(calls(&ext), (vec![OffchainCall::TraderMarginCall(ALICE, MOCK_POOL)], false));
    ext.set_price(CurrencyId::FEUR, (180, 100));
    assert_eq!(calls(&ext), (vec![OffchainCall::LiquidityPoolForceClose(MOCK_POOL)], false));
    // Without a price the first check fails and nothing after it is looked at.
    ext.prices.set_price(CurrencyId::FEUR, None);
    assert_eq!(calls(&ext), (vec![], true));
}

#[test]
fn snapshot_totals_are_the_sums_of_the_positions() {
    let mut ext = Builder::new()
        .price(CurrencyId::FJPY, (1, 106))
        .price(CurrencyId::FEUR, (1419, 1060))
        .pool_liquidity(balance_saturating_from_integer_currency_cent(100_000_00))
        .build();
    ext.set_balance(ALICE, MOCK_POOL, fixedi128_saturating_from_integer_currency_cent(10_000_00));
    let short = ext.open(ALICE, EUR_JPY_PAIR, Leverage::ShortTwenty, balance_saturating_from_integer_currency_cent(10_000_00), rational(141, 1)).unwrap();
    let long = ext.open(ALICE, EUR_JPY_PAIR, Leverage::LongTwenty, balance_saturating_from_integer_currency_cent(10_000_00), rational(143, 1)).unwrap();
    let s = ext.protocol.positions(short).unwrap();
    let l = ext.protocol.positions(long).unwrap();
    assert_eq!(
        ext.protocol.pool_positions_snapshots(MOCK_POOL, EUR_JPY_PAIR),
        positions_snapshot(2, l.leveraged_held, l.leveraged_debits, s.leveraged_held, s.leveraged_debits)
    );
    assert!(s.leveraged_held.into_inner() < 0 && s.leveraged_debits.into_inner() > 0);
    assert!(l.leveraged_held.into_inner() > 0 && l.leveraged_debits.into_inner() < 0);
}

#[test]
fn open_position_fails_if_trader_margin_called() {
    let mut ext = jpy_107_funded();
    // Reach the margin called state through a margin call.
    ext.insert(eur_jpy_long());
    ext.set_trader_risk_threshold(EUR_JPY_PAIR, risk_threshold(100, 0));
    assert_eq!(ext.trader_margin_call(ALICE), Ok(()));
    ext.set_trader_risk_threshold(EUR_JPY_PAIR, risk_threshold(0, 0));
    assert_eq!(
        ext.open(ALICE, EUR_JPY_PAIR, Leverage::LongTwenty, balance_saturating_from_integer_currency_cent(100_000_00), rational(142, 1)),
        Err(merr(MarginError::MarginCalledTrader))
    );
}

#[test]
fn open_position_fails_if_pool_margin_called() {
    let mut ext = jpy_107_funded();
    // Reach the margin called state through a margin call.
    ext.insert(eur_jpy_long());
    ext.set_enp_risk_threshold(EUR_JPY_PAIR, risk_threshold(100, 0));
    assert_eq!(ext.pool_margin_call(), Ok(()));
    ext.set_enp_risk_threshold(EUR_JPY_PAIR, risk_threshold(0, 0));
    assert_eq!(
        ext.open(ALICE, EUR_JPY_PAIR, Leverage::LongTwenty, balance_saturating_from_integer_currency_cent(100_000_00), rational(142, 1)),
        Err(merr(MarginError::MarginCalledPool))
    );
}

#[test]
fn trader_position_ids_lists_the_positions_of_a_trader_in_a_pool() {
    let mut ext = Builder::new().build();
    ext.insert(eur_jpy_long());
    let mut bobs = eur_jpy_short();
    bobs.owner = BOB;
    ext.insert(bobs);
    ext.insert(eur_jpy_short());
    assert_eq!(ext.protocol.trader_position_ids(ALICE, MOCK_POOL), vec![0, 2]);
    assert_eq!(ext.protocol.trader_position_ids(BOB, MOCK_POOL), vec![1]);
    assert_eq!(ext.protocol.trader_position_ids(ALICE, MOCK_POOL_1), Vec::<u64>::new());
}

#[test]
fn offchain_errors_have_messages() {
    assert_eq!(OffchainErr::OffchainLock.message(), "Failed to get or extend lock");
    assert_eq!(OffchainErr::SubmitTransaction.message(), "Failed to submit transaction");
    assert_eq!(OffchainErr::NotValidator.message(), "Not validator");
    assert_eq!(OffchainErr::CheckFail.message(), "Check fail");
}

#[test]
fn closing_a_just_opened_position_gives_back_the_snapshot() {
    let mut ext = Builder::new()
        .price(CurrencyId::FJPY, (1, 106))
        .price(CurrencyId::FEUR, (1419, 1060))
        .pool_liquidity(balance_saturating_from_integer_currency_cent(100_000_00))
        .module_balance(balance_saturating_from_integer_currency_cent(100_000_00))
        .build();
    ext.set_balance(ALICE, MOCK_POOL, fixedi128_saturating_from_integer_currency_cent(10_000_00));
    let before = ext.protocol.pool_positions_snapshots(MOCK_POOL, EUR_JPY_PAIR);
    let id = ext.open(ALICE, EUR_JPY_PAIR, Leverage::LongTwenty, balance_saturating_from_integer_currency_cent(10_000_00), rational(143, 1)).unwrap();
    assert_ne!(ext.protocol.pool_positions_snapshots(MOCK_POOL, EUR_JPY_PAIR), before);
    assert_eq!(ext.close(ALICE, id, rational(0, 1)), Ok(()));
    assert_eq!(ext.protocol.pool_positions_snapshots(MOCK_POOL, EUR_JPY_PAIR), before);
    assert_eq!(ext.protocol.positions(id), None);
}

#[test]
fn insert_position_refuses_wrong_signs_and_a_full_pool() {
    let mut ext = Builder::new().build();
    let mut wrong = eur_jpy_long();
    wrong.leveraged_held = whole(-100_000);
    assert_eq!(ext.protocol.insert_position(wrong), Err(MarginError::NumOutOfBound));
    assert_eq!(ext.protocol.next_position_id(), 0);
    for i in 0..1000u64 {
        assert_eq!(ext.protocol.insert_position(eur_jpy_long()), Ok(i));
    }
    assert_eq!(ext.protocol.insert_position(eur_jpy_long()), Err(MarginError::CannotOpenMorePosition));
    assert_eq!(ext.protocol.pool_positions_snapshots(MOCK_POOL, EUR_JPY_PAIR).positions_count, 1000);
}
