use laminar::error::DispatchError;
use laminar::fixed::{Permill, UFixed};
use laminar::mock::{alice, bob};
use laminar::primitives::CurrencyId;
use laminar::synthetic_tokens::{Position, SyntheticTokens};

const UPDATE_ORIGIN: u64 = 0;
const ACCOUNT: u64 = 100;

fn default_extreme() -> Permill {
    Permill::from_percent(1)
}

fn default_liquidation() -> Permill {
    Permill::from_percent(5)
}

fn default_collateral() -> Permill {
    Permill::from_percent(10)
}

fn tokens() -> SyntheticTokens {
    SyntheticTokens::new(
        default_extreme(),
        default_liquidation(),
        default_collateral(),
        vec![CurrencyId::FEUR],
        UPDATE_ORIGIN,
        ACCOUNT,
    )
}

fn rational(n: u128, d: u128) -> UFixed {
    UFixed::checked_from_rational(n, d).unwrap()
}

fn permill_fixed(p: Permill) -> UFixed {
    UFixed::from_permill(p)
}

fn plus_one(ratio: UFixed) -> UFixed {
    ratio.saturating_add(&rational(1, 1))
}

#[test]
fn root_set_extreme_ratio() {
    let mut t = tokens();
    assert_eq!(t.ratios(CurrencyId::FEUR).extreme, None);
    let ratio = Permill::from_percent(1);
    assert_eq!(t.set_extreme_ratio(UPDATE_ORIGIN, CurrencyId::FEUR, ratio), Ok(()));
    assert_eq!(t.ratios(CurrencyId::FEUR).extreme, Some(ratio));
}

#[test]
fn non_root_set_extreme_ratio_fails() {
    let mut t = tokens();
    let ratio = Permill::from_percent(1);
    assert_eq!(t.set_extreme_ratio(bob(), CurrencyId::FEUR, ratio), Err(DispatchError::BadOrigin));
    assert_eq!(t.ratios(CurrencyId::FEUR).extreme, None);
    assert_eq!(t.set_extreme_ratio(alice(), CurrencyId::FEUR, ratio), Ok(()));
}

#[test]
fn root_set_liquidation_ratio() {
    let mut t = tokens();
    assert_eq!(t.ratios(CurrencyId::FEUR).liquidation, None);
    let ratio = Permill::from_percent(1);
    assert_eq!(t.set_liquidation_ratio(UPDATE_ORIGIN, CurrencyId::FEUR, ratio), Ok(()));
    assert_eq!(t.ratios(CurrencyId::FEUR).liquidation, Some(ratio));
}

#[test]
fn non_root_set_liquidation_ratio_fails() {
    let mut t = tokens();
    let ratio = Permill::from_percent(1);
    assert_eq!(t.set_liquidation_ratio(bob(), CurrencyId::FEUR, ratio), Err(DispatchError::BadOrigin));
    assert_eq!(t.ratios(CurrencyId::FEUR).liquidation, None);
    assert_eq!(t.set_liquidation_ratio(alice(), CurrencyId::FEUR, ratio), Ok(()));
}

#[test]
fn root_set_collateral_ratio() {
    let mut t = tokens();
    assert_eq!(t.ratios(CurrencyId::FEUR).collateral, None);
    let ratio = Permill::from_percent(1);
    assert_eq!(t.set_collateral_ratio(UPDATE_ORIGIN, CurrencyId::FEUR, ratio), Ok(()));
    assert_eq!(t.ratios(CurrencyId::FEUR).collateral, Some(ratio));
}

#[test]
fn non_root_set_collateral_ratio_fails() {
    let mut t = tokens();
    let ratio = Permill::from_percent(1);
    assert_eq!(t.set_collateral_ratio(bob(), CurrencyId::FEUR, ratio), Err(DispatchError::BadOrigin));
    assert_eq!(t.ratios(CurrencyId::FEUR).collateral, None);
    assert_eq!(t.set_collateral_ratio(alice(), CurrencyId::FEUR, ratio), Ok(()));
}

#[test]
fn liquidation_ratio_or_default() {
    let mut t = tokens();
    assert_eq!(t.liquidation_ratio_or_default(CurrencyId::FEUR), default_liquidation());
    let ratio = Permill::from_percent(1);
    assert_eq!(t.set_liquidation_ratio(UPDATE_ORIGIN, CurrencyId::FEUR, ratio), Ok(()));
    assert_eq!(t.liquidation_ratio_or_default(CurrencyId::FEUR), ratio);
}

#[test]
fn extreme_ratio_or_default() {
    let mut t = tokens();
    assert_eq!(t.extreme_ratio_or_default(CurrencyId::FEUR), default_extreme());
    let ratio = Permill::from_percent(1);
    assert_eq!(t.set_extreme_ratio(UPDATE_ORIGIN, CurrencyId::FEUR, ratio), Ok(()));
    assert_eq!(t.extreme_ratio_or_default(CurrencyId::FEUR), ratio);
}

#[test]
fn collateral_ratio_or_default() {
    let mut t = tokens();
    assert_eq!(t.collateral_ratio_or_default(CurrencyId::FEUR), default_collateral());
    let ratio = Permill::from_percent(1);
    assert_eq!(t.set_collateral_ratio(UPDATE_ORIGIN, CurrencyId::FEUR, ratio), Ok(()));
    assert_eq!(t.collateral_ratio_or_default(CurrencyId::FEUR), ratio);
}

#[test]
fn no_incentive_if_collateral_less_than_synthetic_value() {
    let t = tokens();
    let ratio = rational(1, 2);
    assert_eq!(t.incentive_ratio(CurrencyId::FEUR, ratio), UFixed::from_inner(0));
}

#[test]
fn no_incentive_if_equal_or_above_liquidation_ratio() {
    let t = tokens();
    // equal
    assert_eq!(
        t.incentive_ratio(CurrencyId::FEUR, plus_one(permill_fixed(default_liquidation()))),
        UFixed::from_inner(0)
    );
    // above
    let ratio = rational(11, 100);
    assert!(ratio.inner > permill_fixed(t.liquidation_ratio_or_default(CurrencyId::FEUR)).inner);
    assert_eq!(t.incentive_ratio(CurrencyId::FEUR, plus_one(ratio)), UFixed::from_inner(0));
}

#[test]
fn full_incentive_if_equal_or_below_extreme_ratio() {
    let t = tokens();
    // equal
    assert_eq!(
        t.incentive_ratio(CurrencyId::FEUR, plus_one(permill_fixed(default_extreme()))),
        rational(1, 1)
    );
    // below
    let ratio = UFixed::from_inner(0);
    assert!(ratio.inner < permill_fixed(t.extreme_ratio_or_default(CurrencyId::FEUR)).inner);
    assert_eq!(t.incentive_ratio(CurrencyId::FEUR, plus_one(ratio)), rational(1, 1));
}

// Given: ratio 10%, extreme 0%, liquidation 100%.
// Incentive should be 90%.
#[test]
fn proportional_incentive_between_extreme_and_liquidation() {
    let mut t = tokens();
    assert_eq!(t.set_extreme_ratio(UPDATE_ORIGIN, CurrencyId::FEUR, Permill::zero()), Ok(()));
    assert_eq!(t.set_liquidation_ratio(UPDATE_ORIGIN, CurrencyId::FEUR, Permill::one()), Ok(()));
    let ten_percent = rational(1, 10);
    assert_eq!(t.incentive_ratio(CurrencyId::FEUR, plus_one(ten_percent)), rational(9, 10));
}

#[test]
fn should_add_remove_get_position() {
    let mut t = tokens();
    let zero = Position { collateral: 0, synthetic: 0 };
    assert_eq!(t.positions(0, CurrencyId::FEUR), zero);
    assert_eq!(t.get_position(0, CurrencyId::FEUR), (0, 0));

    t.add_position(0, CurrencyId::FEUR, 1, 2);
    assert_eq!(t.positions(0, CurrencyId::FEUR), Position { collateral: 1, synthetic: 2 });
    assert_eq!(t.get_position(0, CurrencyId::FEUR), (1, 2));

    t.remove_position(0, CurrencyId::FEUR, 1, 1);
    assert_eq!(t.positions(0, CurrencyId::FEUR), Position { collateral: 0, synthetic: 1 });
    assert_eq!(t.get_position(0, CurrencyId::FEUR), (0, 1));

    t.remove_position(0, CurrencyId::FEUR, 1, 1);
    assert_eq!(t.positions(0, CurrencyId::FEUR), zero);
    assert_eq!(t.get_position(0, CurrencyId::FEUR), (0, 0));
}

#[test]
fn positions_saturate() {
    let mut t = tokens();
    t.add_position(1, CurrencyId::FEUR, u128::MAX, 5);
    t.add_position(1, CurrencyId::FEUR, 10, 0);
    assert_eq!(t.get_position(1, CurrencyId::FEUR), (u128::MAX, 5));
    t.remove_position(1, CurrencyId::FEUR, 1, 10);
    assert_eq!(t.get_position(1, CurrencyId::FEUR), (u128::MAX - 1, 0));
    assert_eq!(t.get_position(0, CurrencyId::FEUR), (0, 0));
}

#[test]
fn only_listed_currencies_are_synthetic() {
    let t = tokens();
    assert!(t.is_synthetic_currency(CurrencyId::FEUR));
    assert!(!t.is_synthetic_currency(CurrencyId::AUSD));
}

#[test]
fn incentive_does_not_grow_as_collateral_ratio_rises_from_one() {
    let t = tokens();
    let mut last = t.incentive_ratio(CurrencyId::FEUR, rational(1, 1));
    assert_eq!(last, rational(1, 1));
    for percent in 1..12u128 {
        let r = t.incentive_ratio(CurrencyId::FEUR, rational(100 + percent, 100));
        assert!(r.inner <= last.inner);
        last = r;
    }
    assert_eq!(last, UFixed::from_inner(0));
}
