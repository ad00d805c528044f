use laminar::base_pools::BaseLiquidityPools;
use laminar::error::{DispatchError, SyntheticError, TokenError};
use laminar::fixed::{Permill, UFixed};
use laminar::ledger::Ledger;
use laminar::mock::MockLiquidityPools;
use laminar::prices::Prices;
use laminar::primitives::{AccountId, Balance, CurrencyId, LiquidityPoolId};
use laminar::synthetic_pools::SyntheticLiquidityPools;
use laminar::synthetic_protocol::SyntheticProtocol;
use laminar::synthetic_tokens::SyntheticTokens;

const ALICE: AccountId = 0;
const BOB: AccountId = 1;
const ROOT: AccountId = 2;
const POOLS_ACCOUNT: AccountId = 100;
const TOKENS_ACCOUNT: AccountId = 200;
const MOCK_POOL: LiquidityPoolId = 0;
const ANOTHER_MOCK_POOL: LiquidityPoolId = 1;
const ONE_MILL: Balance = 1000_000;
const ONE: u128 = 1_000_000_000_000_000_000;

/// The modules a synthetic trade touches, with the spread of every pool kept at a fixed
/// share of the current price.
struct Ext {
    ledger: Ledger,
    prices: Prices,
    pools: SyntheticLiquidityPools,
    tokens: SyntheticTokens,
    protocol: SyntheticProtocol,
    /// Spread as a share of the price, in units of `1 / ONE`.
    spread: u128,
    pool_count: u32,
    mock: MockLiquidityPools,
}

struct Builder {
    alice: Balance,
    bob: Balance,
    pools: Vec<Balance>,
    feur_price: Option<u128>,
    spread: u128,
    additional: Permill,
    is_allowed: bool,
}

impl Builder {
    fn new() -> Builder {
        Builder {
            alice: 0,
            bob: 0,
            pools: vec![0],
            feur_price: None,
            spread: 0,
            additional: Permill::zero(),
            is_allowed: true,
        }
    }

    fn one_million_for_alice_n_mock_pool(mut self) -> Builder {
        self.alice = ONE_MILL;
        self.pools = vec![ONE_MILL];
        self
    }

    fn synthetic_price_three(mut self) -> Builder {
        self.feur_price = Some(3 * ONE);
        self
    }

    fn one_percent_spread(mut self) -> Builder {
        self.spread = ONE / 100;
        self
    }

    fn ten_percent_additional_collateral_ratio(mut self) -> Builder {
        self.additional = Permill::from_percent(10);
        self
    }

    fn build(self) -> Ext {
        let mut ledger = Ledger::new();
        let base = BaseLiquidityPools::new(POOLS_ACCOUNT, CurrencyId::AUSD, 0, 1000, ROOT);
        let mut ext = Ext {
            ledger: Ledger::new(),
            prices: Prices::new(),
            pools: SyntheticLiquidityPools::new(base, Permill::zero(), ROOT),
            tokens: SyntheticTokens::new(
                Permill::from_percent(1),
                Permill::from_percent(5),
                Permill::from_percent(10),
                vec![CurrencyId::FEUR],
                ROOT,
                TOKENS_ACCOUNT,
            ),
            protocol: SyntheticProtocol::new(CurrencyId::AUSD),
            spread: self.spread,
            pool_count: 0,
            mock: MockLiquidityPools::new(),
        };
        ext.mock.set_is_allowed(self.is_allowed);
        // ALICE owns the pools; the liquidity she puts in comes on top of her own balance.
        let total: Balance = self.pools.iter().sum();
        ledger.set_balance(ALICE, CurrencyId::AUSD, total);
        for liquidity in self.pools.iter() {
            let id = ext.pools.base_mut().create_pool(ALICE).unwrap();
            assert_eq!(ext.pools.base_mut().deposit_liquidity(&mut ledger, ALICE, id, *liquidity), Ok(()));
            assert_eq!(ext.mock.apply_is_allowed(&mut ext.pools, ALICE, id, CurrencyId::FEUR), Ok(()));
            assert_eq!(
                ext.pools.set_additional_collateral_ratio(ALICE, id, CurrencyId::FEUR, Some(self.additional)),
                Ok(())
            );
            ext.pool_count += 1;
        }
        ledger.set_balance(ALICE, CurrencyId::AUSD, self.alice);
        ledger.set_balance(BOB, CurrencyId::AUSD, self.bob);
        ext.ledger = ledger;
        ext.prices.set_price(CurrencyId::AUSD, Some(UFixed::from_inner(ONE)));
        ext.set_feur_price_inner(self.feur_price);
        ext
    }
}

impl Ext {
    fn set_feur_price_inner(&mut self, price: Option<u128>) {
        self.prices.set_price(CurrencyId::FEUR, price.map(UFixed::from_inner));
        if let Some(p) = price {
            let spread = UFixed::from_inner(p / ONE * self.spread + (p % ONE) * self.spread / ONE);
            for id in 0..self.pool_count {
                assert_eq!(self.pools.set_spread(ALICE, id, CurrencyId::FEUR, spread, spread), Ok(()));
            }
        }
    }

    fn set_mock_feur_price(&mut self, x: u128, y: u128) {
        self.set_feur_price_inner(Some(x * ONE / y));
    }

    fn set_mock_feur_price_none(&mut self) {
        self.set_feur_price_inner(None);
    }

    fn set_is_allowed(&mut self, allowed: bool) {
        self.mock.set_is_allowed(allowed);
        for id in 0..self.pool_count {
            assert_eq!(self.mock.apply_is_allowed(&mut self.pools, ALICE, id, CurrencyId::FEUR), Ok(()));
            assert_eq!(self.pools.can_mint(id, CurrencyId::FEUR), allowed);
        }
    }

    fn mint_in(&mut self, who: AccountId, pool: LiquidityPoolId, amount: Balance, max: u128) -> Result<Balance, DispatchError> {
        self.protocol.mint(
            &mut self.tokens,
            &mut self.pools,
            &mut self.ledger,
            &self.prices,
            who,
            pool,
            CurrencyId::FEUR,
            amount,
            UFixed::from_inner(max),
        )
    }

    fn mint_feur(&mut self, who: AccountId, amount: Balance) -> Result<Balance, DispatchError> {
        self.mint_in(who, MOCK_POOL, amount, 4 * ONE)
    }

    fn redeem_at(&mut self, who: AccountId, amount: Balance, min: u128) -> Result<Balance, DispatchError> {
        self.protocol.redeem(
            &mut self.tokens,
            &mut self.pools,
            &mut self.ledger,
            &self.prices,
            who,
            MOCK_POOL,
            CurrencyId::FEUR,
            amount,
            UFixed::from_inner(min),
        )
    }

    fn redeem_ausd(&mut self, who: AccountId, amount: Balance) -> Result<Balance, DispatchError> {
        self.redeem_at(who, amount, 2 * ONE)
    }

    fn liquidate_currency(&mut self, who: AccountId, currency: CurrencyId, amount: Balance) -> Result<Balance, DispatchError> {
        self.protocol.liquidate(
            &mut self.tokens,
            &mut self.pools,
            &mut self.ledger,
            &self.prices,
            who,
            MOCK_POOL,
            currency,
            amount,
        )
    }

    fn liquidate(&mut self, who: AccountId, amount: Balance) -> Result<Balance, DispatchError> {
        self.liquidate_currency(who, CurrencyId::FEUR, amount)
    }

    fn add_collateral(&mut self, who: AccountId, currency: CurrencyId, amount: Balance) -> Result<(), DispatchError> {
        self.protocol.add_collateral(
            &mut self.tokens,
            &mut self.pools,
            &mut self.ledger,
            who,
            MOCK_POOL,
            currency,
            amount,
        )
    }

    fn withdraw_collateral_of(&mut self, who: AccountId, currency: CurrencyId) -> Result<Balance, DispatchError> {
        self.protocol.withdraw_collateral(
            &mut self.tokens,
            &mut self.pools,
            &mut self.ledger,
            &self.prices,
            who,
            MOCK_POOL,
            currency,
        )
    }

    fn withdraw_collateral(&mut self, who: AccountId) -> Result<Balance, DispatchError> {
        self.withdraw_collateral_of(who, CurrencyId::FEUR)
    }

    fn mock_pool_liquidity(&self) -> Balance {
        self.pools.base().liquidity(MOCK_POOL)
    }

    fn collateral_balance(&self, who: AccountId) -> Balance {
        self.ledger.free_balance(who, CurrencyId::AUSD)
    }

    fn synthetic_balance(&self, who: AccountId) -> Balance {
        self.ledger.free_balance(who, CurrencyId::FEUR)
    }

    fn synthetic_issuance(&self) -> Balance {
        self.synthetic_balance(ALICE) + self.synthetic_balance(BOB)
    }

    fn position(&self) -> (Balance, Balance) {
        self.tokens.get_position(MOCK_POOL, CurrencyId::FEUR)
    }
}

fn err(e: SyntheticError) -> DispatchError {
    DispatchError::SyntheticProtocol(e)
}

fn standard() -> Ext {
    Builder::new()
        .one_million_for_alice_n_mock_pool()
        .synthetic_price_three()
        .one_percent_spread()
        .ten_percent_additional_collateral_ratio()
        .build()
}

#[test]
fn mint_fails_if_balance_too_low() {
    let mut ext = Builder::new()
        .synthetic_price_three()
        .one_percent_spread()
        .ten_percent_additional_collateral_ratio()
        .build();
    assert_eq!(ext.mint_feur(ALICE, 100), Err(DispatchError::Tokens(TokenError::BalanceTooLow)));
}

#[test]
fn mint_fails_if_no_price() {
    let mut ext = Builder::new()
        .one_million_for_alice_n_mock_pool()
        .one_percent_spread()
        .ten_percent_additional_collateral_ratio()
        .build();
    assert_eq!(ext.mint_feur(ALICE, 100), Err(err(SyntheticError::NoPrice)));
}

#[test]
fn mint_fails_if_slippage_too_greedy() {
    let mut ext = standard();
    assert_eq!(ext.mint_in(ALICE, MOCK_POOL, 1, 3 * ONE), Err(err(SyntheticError::AskPriceTooHigh)));
}

#[test]
fn mint_fails_if_wrong_spread_ratio_config() {
    let mut b = Builder::new().one_million_for_alice_n_mock_pool().synthetic_price_three();
    b.spread = ONE / 50;
    b.additional = Permill::from_percent(1);
    let mut ext = b.build();
    assert_eq!(ext.mint_feur(ALICE, 100), Err(err(SyntheticError::NegativeAdditionalCollateralAmount)));
}

#[test]
fn mint_fails_if_pool_has_no_liquidity() {
    let mut b = Builder::new()
        .synthetic_price_three()
        .one_percent_spread()
        .ten_percent_additional_collateral_ratio();
    b.alice = ONE_MILL;
    let mut ext = b.build();
    assert_eq!(ext.mint_feur(ALICE, ONE_MILL), Err(err(SyntheticError::InsufficientLiquidityInPool)));
}

#[test]
fn mint_fails_if_currency_is_not_supported() {
    let mut ext = standard();
    let r = ext.protocol.mint(
        &mut ext.tokens,
        &mut ext.pools,
        &mut ext.ledger,
        &ext.prices,
        ALICE,
        MOCK_POOL,
        CurrencyId::LAMI,
        ONE_MILL,
        UFixed::from_inner(3 * ONE),
    );
    assert_eq!(r, Err(err(SyntheticError::NotValidSyntheticCurrencyId)));
}

#[test]
fn mint_does_correct_math() {
    let mut ext = standard();
    let synthetic = 330_033;
    let total_collateralized = 1_089_109;
    let collateral_from_pool = 89_109;
    assert_eq!(ext.mint_feur(ALICE, ONE_MILL), Ok(synthetic));
    assert_eq!(ext.collateral_balance(ALICE), 0);
    assert_eq!(ext.synthetic_balance(ALICE), synthetic);
    assert_eq!(ext.synthetic_issuance(), synthetic);
    assert_eq!(ext.mock_pool_liquidity(), ONE_MILL - collateral_from_pool);
    assert_eq!(ext.collateral_balance(TOKENS_ACCOUNT), total_collateralized);
    assert_eq!(ext.position(), (total_collateralized, synthetic));
}

#[test]
fn redeem_fails_if_not_enough_synthetic() {
    let mut ext = standard();
    assert!(ext.mint_feur(ALICE, ONE_MILL).is_ok());
    assert_eq!(ext.redeem_ausd(ALICE, ONE_MILL + 1), Err(DispatchError::Tokens(TokenError::BalanceTooLow)));
}

#[test]
fn redeem_fails_if_no_price() {
    let mut ext = standard();
    assert!(ext.mint_feur(ALICE, ONE_MILL).is_ok());
    ext.set_mock_feur_price_none();
    assert_eq!(ext.redeem_ausd(ALICE, 1), Err(err(SyntheticError::NoPrice)));
}

#[test]
fn redeem_fails_if_slippage_too_greedy() {
    let mut ext = standard();
    assert!(ext.mint_feur(ALICE, ONE_MILL).is_ok());
    assert_eq!(ext.redeem_at(ALICE, 1, 3 * ONE), Err(err(SyntheticError::BidPriceTooLow)));
}

#[test]
fn redeem_fails_if_synthetic_position_too_low() {
    let mut b = Builder::new()
        .synthetic_price_three()
        .one_percent_spread()
        .ten_percent_additional_collateral_ratio();
    b.alice = ONE_MILL;
    b.pools = vec![ONE_MILL, ONE_MILL];
    let mut ext = b.build();
    assert!(ext.mint_feur(ALICE, ONE_MILL / 10).is_ok());
    assert!(ext.mint_in(ALICE, ANOTHER_MOCK_POOL, ONE_MILL / 10, 4 * ONE).is_ok());
    let all = ext.synthetic_balance(ALICE);
    assert_eq!(ext.redeem_ausd(ALICE, all), Err(err(SyntheticError::InsufficientSyntheticInPosition)));
}

#[test]
fn redeem_fails_if_collateral_position_too_low() {
    let mut ext = standard();
    assert!(ext.mint_feur(ALICE, ONE_MILL).is_ok());
    ext.set_mock_feur_price(4, 1);
    let all = ext.synthetic_balance(ALICE);
    assert_eq!(ext.redeem_ausd(ALICE, all), Err(err(SyntheticError::InsufficientCollateralInPosition)));
}

#[test]
fn redeem_fails_if_not_enough_locked_collateral() {
    let mut ext = standard();
    assert!(ext.mint_feur(ALICE, ONE_MILL).is_ok());
    assert_eq!(ext.ledger.withdraw(CurrencyId::AUSD, TOKENS_ACCOUNT, ONE_MILL / 2), Ok(()));
    let all = ext.synthetic_balance(ALICE);
    assert_eq!(ext.redeem_ausd(ALICE, all), Err(err(SyntheticError::InsufficientLockedCollateral)));
}

#[test]
fn redeem_fails_if_currency_is_not_supported() {
    let mut ext = standard();
    let r = ext.protocol.redeem(
        &mut ext.tokens,
        &mut ext.pools,
        &mut ext.ledger,
        &ext.prices,
        ALICE,
        MOCK_POOL,
        CurrencyId::LAMI,
        ONE_MILL,
        UFixed::from_inner(3 * ONE),
    );
    assert_eq!(r, Err(err(SyntheticError::NotValidSyntheticCurrencyId)));
}

#[test]
fn redeem_does_correct_math() {
    let mut ext = standard();
    assert!(ext.mint_feur(ALICE, ONE_MILL).is_ok());
    let collateral_from_pool = 89_109;
    let total_collateralized = 1_089_109;
    let synthetic_to_redeem = 100_000;
    let redeemed_collateral = 297_000;
    assert_eq!(ext.redeem_ausd(ALICE, synthetic_to_redeem), Ok(redeemed_collateral));
    let rest_of_synthetic = 230_033;
    let new_collateral_position = 759_109;
    let pool_refund_collateral = 33_000;
    assert_eq!(ext.collateral_balance(ALICE), redeemed_collateral);
    assert_eq!(ext.synthetic_balance(ALICE), rest_of_synthetic);
    assert_eq!(ext.synthetic_issuance(), rest_of_synthetic);
    assert_eq!(ext.mock_pool_liquidity(), ONE_MILL - collateral_from_pool + pool_refund_collateral);
    assert_eq!(
        ext.collateral_balance(TOKENS_ACCOUNT),
        total_collateralized - redeemed_collateral - pool_refund_collateral
    );
    assert_eq!(ext.position(), (new_collateral_position, rest_of_synthetic));
}

#[test]
fn pool_makes_profit() {
    let mut ext = standard();
    assert!(ext.mint_feur(ALICE, ONE_MILL).is_ok());
    let all = ext.synthetic_balance(ALICE);
    assert!(ext.redeem_ausd(ALICE, all).is_ok());
    assert!(ext.mock_pool_liquidity() > ONE_MILL);
}

#[test]
fn buyer_could_take_profit() {
    let mut ext = standard();
    assert!(ext.mint_feur(ALICE, ONE_MILL / 10).is_ok());
    ext.set_mock_feur_price(31, 10);
    let all = ext.synthetic_balance(ALICE);
    assert!(ext.redeem_ausd(ALICE, all).is_ok());
    assert!(ext.collateral_balance(ALICE) > ONE_MILL);
}

#[test]
fn buyer_could_stop_loss() {
    let mut ext = standard();
    assert!(ext.mint_feur(ALICE, ONE_MILL / 10).is_ok());
    ext.set_mock_feur_price(29, 10);
    let all = ext.synthetic_balance(ALICE);
    assert!(ext.redeem_ausd(ALICE, all).is_ok());
    assert!(ext.collateral_balance(ALICE) < ONE_MILL);
}

#[test]
fn mint_and_redeem_by_multi_buyers() {
    let mut b = Builder::new()
        .one_million_for_alice_n_mock_pool()
        .synthetic_price_three()
        .one_percent_spread()
        .ten_percent_additional_collateral_ratio();
    b.bob = ONE_MILL;
    let mut ext = b.build();
    assert!(ext.mint_feur(ALICE, ONE_MILL / 10).is_ok());
    assert!(ext.mint_feur(BOB, ONE_MILL / 15).is_ok());
    assert_ne!(ext.collateral_balance(ALICE), ext.collateral_balance(BOB));
    assert_ne!(ext.synthetic_balance(ALICE), ext.synthetic_balance(BOB));
    ext.set_mock_feur_price(29, 10);
    let a = ext.synthetic_balance(ALICE);
    assert!(ext.redeem_ausd(ALICE, a).is_ok());
    let b = ext.synthetic_balance(BOB);
    assert!(ext.redeem_ausd(BOB, b).is_ok());
    assert_eq!(ext.synthetic_issuance(), 0);
}

#[test]
fn liquidate_fails_if_liquidator_not_enough_synthetic() {
    let mut ext = standard();
    assert!(ext.mint_feur(ALICE, ONE_MILL).is_ok());
    ext.set_mock_feur_price(32, 10);
    assert_eq!(ext.liquidate(BOB, 1), Err(DispatchError::Tokens(TokenError::BalanceTooLow)));
}

#[test]
fn liquidate_fails_if_no_price() {
    let mut ext = standard();
    assert!(ext.mint_feur(ALICE, ONE_MILL).is_ok());
    ext.set_mock_feur_price_none();
    assert_eq!(ext.liquidate(ALICE, 1), Err(err(SyntheticError::NoPrice)));
}

#[test]
fn liquidate_fails_if_synthetic_position_too_low() {
    let mut b = Builder::new()
        .synthetic_price_three()
        .one_percent_spread()
        .ten_percent_additional_collateral_ratio();
    b.alice = ONE_MILL;
    b.pools = vec![ONE_MILL, ONE_MILL];
    let mut ext = b.build();
    assert!(ext.mint_feur(ALICE, ONE_MILL / 2).is_ok());
    assert!(ext.mint_in(ALICE, ANOTHER_MOCK_POOL, ONE_MILL / 2, 4 * ONE).is_ok());
    ext.set_mock_feur_price(32, 10);
    let all = ext.synthetic_balance(ALICE);
    assert_eq!(ext.liquidate(ALICE, all), Err(err(SyntheticError::InsufficientSyntheticInPosition)));
}

#[test]
fn liquidate_fails_if_collateral_position_too_low() {
    let mut ext = standard();
    assert!(ext.mint_feur(ALICE, ONE_MILL).is_ok());
    ext.set_mock_feur_price(4, 1);
    let all = ext.synthetic_balance(ALICE);
    assert_eq!(ext.liquidate(ALICE, all), Err(err(SyntheticError::InsufficientCollateralInPosition)));
}

#[test]
fn liquidate_fails_if_still_in_safe_position() {
    let mut ext = standard();
    assert!(ext.mint_feur(ALICE, ONE_MILL).is_ok());
    ext.set_mock_feur_price(31, 10);
    assert_eq!(ext.liquidate(ALICE, 1), Err(err(SyntheticError::StillInSafePosition)));
}

#[test]
fn liquidate_fails_if_currency_is_not_supported() {
    let mut ext = standard();
    assert_eq!(
        ext.liquidate_currency(ALICE, CurrencyId::LAMI, ONE_MILL),
        Err(err(SyntheticError::NotValidSyntheticCurrencyId))
    );
}

#[test]
fn liquidate_does_correct_math() {
    let mut ext = standard();
    assert!(ext.mint_feur(ALICE, ONE_MILL).is_ok());
    let minted_synthetic = 330_033;
    let collateral_from_pool = 89_109;
    let total_collateralized = 1_089_109;
    ext.set_mock_feur_price(32, 10);
    let burned_synthetic = 100_000;
    assert_eq!(ext.ledger.deposit(CurrencyId::FEUR, BOB, burned_synthetic), Ok(()));
    let liquidized_collateral = 316_800;
    assert_eq!(ext.liquidate(BOB, burned_synthetic), Ok(liquidized_collateral));
    let available_for_incentive = 13_201;
    let incentive = 6_187;
    let pool_refund_collateral = 7_014;
    assert_eq!(ext.synthetic_balance(BOB), 0);
    assert_eq!(ext.collateral_balance(BOB), liquidized_collateral + incentive);
    assert_eq!(ext.synthetic_issuance(), minted_synthetic);
    assert_eq!(ext.mock_pool_liquidity(), ONE_MILL - collateral_from_pool + pool_refund_collateral);
    let collateral_position_delta = liquidized_collateral + available_for_incentive;
    assert_eq!(ext.collateral_balance(TOKENS_ACCOUNT), total_collateralized - collateral_position_delta);
    assert_eq!(
        ext.position(),
        (total_collateralized - collateral_position_delta, minted_synthetic - burned_synthetic)
    );
}

#[test]
fn add_collateral_fails_if_balance_too_low() {
    let mut ext = standard();
    assert!(ext.mint_feur(ALICE, ONE_MILL).is_ok());
    assert_eq!(
        ext.add_collateral(ALICE, CurrencyId::FEUR, 1),
        Err(DispatchError::Tokens(TokenError::BalanceTooLow))
    );
}

#[test]
fn add_collateral_fails_if_currency_is_not_supported() {
    let mut ext = standard();
    assert_eq!(
        ext.add_collateral(ALICE, CurrencyId::LAMI, ONE_MILL),
        Err(err(SyntheticError::NotValidSyntheticCurrencyId))
    );
}

#[test]
fn add_collateral_works() {
    let mut ext = standard();
    assert!(ext.mint_feur(ALICE, ONE_MILL / 2).is_ok());
    let minted = ext.synthetic_issuance();
    let (collateral_position, synthetic_position) = ext.position();
    let pool_balance = ext.mock_pool_liquidity();
    let added_collateral = 1_000;
    assert_eq!(ext.add_collateral(ALICE, CurrencyId::FEUR, added_collateral), Ok(()));
    assert_eq!(ext.collateral_balance(ALICE), ONE_MILL / 2 - added_collateral);
    assert_eq!(ext.synthetic_issuance(), minted);
    assert_eq!(ext.mock_pool_liquidity(), pool_balance);
    let (new_collateral_position, new_synthetic_position) = ext.position();
    assert_eq!(new_synthetic_position, synthetic_position);
    assert_eq!(new_collateral_position, collateral_position + added_collateral);
}

#[test]
fn only_owner_could_withdraw_collateral() {
    let mut ext = standard();
    assert!(ext.mint_feur(ALICE, ONE_MILL).is_ok());
    assert_eq!(ext.withdraw_collateral(BOB), Err(err(SyntheticError::NoPermission)));
}

#[test]
fn withdraw_collateral_fails_if_no_price() {
    let mut ext = standard();
    assert!(ext.mint_feur(ALICE, ONE_MILL).is_ok());
    ext.set_mock_feur_price_none();
    assert_eq!(ext.withdraw_collateral(ALICE), Err(err(SyntheticError::NoPrice)));
}

#[test]
fn withdraw_collateral_fails_if_not_enough_locked_collateral() {
    let mut ext = standard();
    assert!(ext.mint_feur(ALICE, ONE_MILL).is_ok());
    let (collateral_position, _) = ext.position();
    assert_eq!(ext.ledger.withdraw(CurrencyId::AUSD, TOKENS_ACCOUNT, collateral_position), Ok(()));
    ext.set_mock_feur_price(2, 1);
    assert_eq!(ext.withdraw_collateral(ALICE), Err(err(SyntheticError::InsufficientLockedCollateral)));
}

#[test]
fn withdraw_collateral_fails_if_currency_is_not_supported() {
    let mut ext = standard();
    assert_eq!(
        ext.withdraw_collateral_of(ALICE, CurrencyId::LAMI),
        Err(err(SyntheticError::NotValidSyntheticCurrencyId))
    );
}

#[test]
fn withdraw_collateral_does_correct_math() {
    let mut ext = standard();
    assert!(ext.mint_feur(ALICE, ONE_MILL).is_ok());
    let minted = ext.synthetic_issuance();
    let (collateral_position, synthetic_position) = ext.position();
    let pool_balance = ext.mock_pool_liquidity();
    ext.set_mock_feur_price(29, 10);
    let withdrew_amount = 36_305;
    assert_eq!(ext.withdraw_collateral(ALICE), Ok(withdrew_amount));
    assert_eq!(ext.collateral_balance(ALICE), withdrew_amount);
    assert_eq!(ext.synthetic_issuance(), minted);
    assert_eq!(ext.mock_pool_liquidity(), pool_balance);
    let (new_collateral_position, new_synthetic_position) = ext.position();
    assert_eq!(new_collateral_position, collateral_position - withdrew_amount);
    assert_eq!(new_synthetic_position, synthetic_position);
}

#[test]
fn mint_fails_if_not_allowed() {
    let mut b = Builder::new().one_million_for_alice_n_mock_pool();
    b.is_allowed = false;
    let mut ext = b.build();
    assert_eq!(ext.mint_feur(ALICE, 100), Err(err(SyntheticError::CannotMintInPool)));
}

#[test]
fn can_redeem_with_not_allowed_position() {
    let mut ext = standard();
    assert!(ext.mint_feur(ALICE, 1000).is_ok());
    ext.set_is_allowed(false);
    assert_eq!(ext.mint_feur(ALICE, 100), Err(err(SyntheticError::CannotMintInPool)));
    assert!(ext.redeem_ausd(ALICE, 100).is_ok());
}

#[test]
fn can_liquidate_with_not_allowed_position() {
    let mut ext = standard();
    assert!(ext.mint_feur(ALICE, ONE_MILL).is_ok());
    ext.set_is_allowed(false);
    ext.set_mock_feur_price(32, 10);
    let burned_synthetic = 100_000;
    assert_eq!(ext.ledger.deposit(CurrencyId::FEUR, BOB, burned_synthetic), Ok(()));
    assert!(ext.liquidate(BOB, burned_synthetic).is_ok());
}

#[test]
fn mint_all_of_collateral() {
    let mut b = Builder::new().one_percent_spread();
    b.alice = 1000;
    b.pools = vec![1000];
    b.feur_price = Some(ONE);
    b.additional = Permill::from_percent(100);
    let mut ext = b.build();
    assert_eq!(ext.mock_pool_liquidity(), 1000);
    assert_eq!(ext.collateral_balance(ALICE), 1000);
    assert_eq!(ext.synthetic_balance(ALICE), 0);
    assert!(ext.mint_feur(ALICE, 1000).is_ok());
    assert_eq!(ext.collateral_balance(ALICE), 0);
    assert_eq!(ext.synthetic_balance(ALICE), 990);
    assert_eq!(ext.mock_pool_liquidity(), 20);
}

#[test]
fn redeem_returns_what_a_mint_took_less_the_spreads() {
    // With no spread and no additional collateral a full round trip gives back the collateral.
    let mut b = Builder::new().one_million_for_alice_n_mock_pool();
    b.feur_price = Some(2 * ONE);
    let mut ext = b.build();
    assert_eq!(ext.mint_in(ALICE, MOCK_POOL, 1000, 2 * ONE), Ok(500));
    assert_eq!(ext.redeem_at(ALICE, 500, 2 * ONE), Ok(1000));
    assert_eq!(ext.collateral_balance(ALICE), ONE_MILL);
    assert_eq!(ext.position(), (0, 0));
}

#[test]
fn pool_state_reports_collateral_ratio() {
    let mut ext = standard();
    assert!(ext.mint_feur(ALICE, ONE_MILL).is_ok());
    let state = ext.protocol.pool_state(&ext.tokens, &ext.prices, MOCK_POOL, CurrencyId::FEUR).unwrap();
    // 1_089_109 / (330_033 * 3)
    assert_eq!(state.collateral_ratio, UFixed::from_inner(1100000101000001010));
    assert!(state.is_safe);
    // At a price of 3.2 the ratio falls under 1 + 5%.
    ext.set_mock_feur_price(32, 10);
    let state = ext.protocol.pool_state(&ext.tokens, &ext.prices, MOCK_POOL, CurrencyId::FEUR).unwrap();
    assert!(!state.is_safe);
    ext.set_mock_feur_price_none();
    assert!(ext.protocol.pool_state(&ext.tokens, &ext.prices, MOCK_POOL, CurrencyId::FEUR).is_none());
}
