//! A runtime composed of all modules, and the simple stand-ins that tests of the protocols
//! use: fixed accounts, a settable spread, a treasury and a pool manager that allows
//! everything.
use vstd::prelude::*;
use crate::base_pools::BaseLiquidityPools;
use crate::error::DispatchError;
use crate::fixed::{spec_saturate_u128, Fixed, Permill};
use crate::ledger::Ledger;
use crate::margin_pools::MarginLiquidityPools;
use crate::margin_protocol::MarginProtocol;
use crate::oracle::Oracle;
use crate::prices::Prices;
use crate::primitives::{AccountId, Balance, CurrencyId, LiquidityPoolId};
use crate::synthetic_pools::{SyntheticLiquidityPools, SyntheticPoolCurrencyOption};
use crate::synthetic_protocol::SyntheticProtocol;
use crate::synthetic_tokens::SyntheticTokens;

verus! {

/// The first test account.
pub fn alice() -> (r: AccountId)
    ensures
        r == 0,
{
    0
}

/// The second test account.
pub fn bob() -> (r: AccountId)
    ensures
        r == 1,
{
    1
}

/// `amount` whole units of a currency with 18 decimals, saturating.
pub fn dollar(amount: u128) -> (r: u128)
    ensures
        r == spec_saturate_u128(amount * 1_000_000_000_000_000_000),
{
    match amount.checked_mul(1_000_000_000_000_000_000u128) {
        Some(v) => v,
        None => u128::MAX,
    }
}

/// Prices that tests set directly.
pub type MockPrices = Prices;

/// Liquidity pools of tests: one spread for every pair, as a ratio of the price, and whether
/// positions are allowed.
pub struct MockLiquidityPools {
    pub(crate) spread: Permill,
    pub(crate) is_allowed: bool,
}

impl MockLiquidityPools {
    pub closed spec fn spec_spread(&self) -> Permill {
        self.spread
    }

    pub closed spec fn spec_is_allowed(&self) -> bool {
        self.is_allowed
    }

    /// No spread, nothing allowed.
    pub fn new() -> (r: MockLiquidityPools)
        ensures
            r.spec_spread().spec_parts() == 0,
            !r.spec_is_allowed(),
    {
        MockLiquidityPools { spread: Permill::zero(), is_allowed: false }
    }

    pub fn spread(&self) -> (r: Permill)
        ensures
            r == self.spec_spread(),
    {
        self.spread
    }

    pub fn set_mock_spread(&mut self, spread: Permill)
        ensures
            final(self).spec_spread() == spread,
            final(self).spec_is_allowed() == old(self).spec_is_allowed(),
    {
        self.spread = spread;
    }

    pub fn is_allowed(&self) -> (r: bool)
        ensures
            r == self.spec_is_allowed(),
    {
        self.is_allowed
    }

    pub fn set_is_allowed(&mut self, allowed: bool)
        ensures
            final(self).spec_is_allowed() == allowed,
            final(self).spec_spread() == old(self).spec_spread(),
    {
        self.is_allowed = allowed;
    }

    /// Lets `currency_id` be minted in pool `pool_id` of `pools`, owned by `owner`, exactly when
    /// the mock allows positions: afterwards `can_mint` there answers `is_allowed`.
    pub fn apply_is_allowed(
        &self,
        pools: &mut SyntheticLiquidityPools,
        owner: AccountId,
        pool_id: LiquidityPoolId,
        currency_id: CurrencyId,
    ) -> (r: Result<(), DispatchError>)
        requires
            old(pools).wf(),
        ensures
            final(pools).wf(),
            r is Ok <==> old(pools).spec_base().spec_is_owner(pool_id, owner),
            r is Err ==> *final(pools) == *old(pools),
            r is Ok ==> final(pools).option(pool_id, currency_id).synthetic_enabled == self.spec_is_allowed()
                && final(pools).stored_option(pool_id, currency_id) == (SyntheticPoolCurrencyOption {
                synthetic_enabled: self.spec_is_allowed(),
                ..old(pools).stored_option(pool_id, currency_id)
            }) && old(pools).same_except_option(&*final(pools), pool_id, currency_id),
    {
        pools.set_synthetic_enabled(owner, pool_id, currency_id, self.is_allowed)
    }
}

/// The treasury of tests.
pub struct MockTreasury {
    pub account: AccountId,
}

impl MockTreasury {
    pub fn account_id(&self) -> (r: AccountId)
        ensures
            r == self.account,
    {
        self.account
    }
}

/// A pool manager that lets every pool be removed and every amount be withdrawn.
pub struct PoolManager;

impl PoolManager {
    pub fn can_remove(&self, _pool_id: LiquidityPoolId) -> (r: bool)
        ensures
            r,
    {
        true
    }

    pub fn ensure_can_withdraw(&self, _pool_id: LiquidityPoolId, _amount: Balance) -> (r: Result<(), DispatchError>)
        ensures
            r is Ok,
    {
        Ok(())
    }
}

/// Errors of the RPC interfaces.
#[derive(Clone, Copy, Debug, PartialEq, Eq, Structural)]
pub enum Error {
    RuntimeError,
}

impl Error {
    /// The error code.
    pub fn code(&self) -> (r: i64)
        ensures
            r == 1,
    {
        match self {
            Error::RuntimeError => 1,
        }
    }
}

/// The account of the base pools of the margin protocol.
pub const MARGIN_POOLS_ACCOUNT: AccountId = 10;

/// The account of the base pools of the synthetic protocol.
pub const SYNTHETIC_POOLS_ACCOUNT: AccountId = 11;

/// The account of the synthetic tokens module.
pub const SYNTHETIC_TOKENS_ACCOUNT: AccountId = 12;

/// The account of the margin protocol.
pub const MARGIN_PROTOCOL_ACCOUNT: AccountId = 13;

/// The treasury account.
pub const TREASURY_ACCOUNT: AccountId = 3;

/// The modules of a runtime, wired together: liquidity is held in `AUSD`.
pub struct Runtime {
    pub ledger: Ledger,
    pub prices: Prices,
    pub margin_pools: MarginLiquidityPools,
    pub margin_protocol: MarginProtocol,
    pub synthetic_pools: SyntheticLiquidityPools,
    pub synthetic_tokens: SyntheticTokens,
    pub synthetic_protocol: SyntheticProtocol,
    pub oracle: Oracle,
}

/// Tests run on the runtime.
pub type Test = Runtime;

impl Runtime {
    pub open spec fn wf(&self) -> bool {
        &&& self.ledger.wf()
        &&& self.prices.wf()
        &&& self.margin_pools.wf()
        &&& self.margin_protocol.wf()
        &&& self.synthetic_pools.wf()
        &&& self.synthetic_tokens.wf()
        &&& self.oracle.wf()
    }

    /// A runtime with no balances, prices, pools or positions. `update_origin` may change the
    /// settings of every module; swap rates are bounded by `max_swap`.
    pub fn new(update_origin: AccountId, max_swap: Fixed) -> (r: Runtime)
        ensures
            r.wf(),
            r.margin_pools.spec_base().spec_account() == MARGIN_POOLS_ACCOUNT,
            r.margin_pools.spec_base().spec_currency() == CurrencyId::AUSD,
            r.synthetic_pools.spec_base().spec_account() == SYNTHETIC_POOLS_ACCOUNT,
            r.synthetic_pools.spec_base().spec_currency() == CurrencyId::AUSD,
            r.margin_protocol.spec_account() == MARGIN_PROTOCOL_ACCOUNT,
            r.margin_protocol.spec_currency() == CurrencyId::AUSD,
            r.margin_protocol.spec_treasury() == TREASURY_ACCOUNT,
            r.synthetic_protocol.collateral_currency == CurrencyId::AUSD,
    {
        let margin_base = BaseLiquidityPools::new(MARGIN_POOLS_ACCOUNT, CurrencyId::AUSD, 0, 0, update_origin);
        let synthetic_base = BaseLiquidityPools::new(SYNTHETIC_POOLS_ACCOUNT, CurrencyId::AUSD, 0, 0, update_origin);
        Runtime {
            ledger: Ledger::new(),
            prices: Prices::new(),
            margin_pools: MarginLiquidityPools::new(margin_base, max_swap, 0, update_origin),
            margin_protocol: MarginProtocol::new(
                MARGIN_PROTOCOL_ACCOUNT,
                TREASURY_ACCOUNT,
                200,
                1000,
                update_origin,
                CurrencyId::AUSD,
            ),
            synthetic_pools: SyntheticLiquidityPools::new(synthetic_base, Permill::zero(), update_origin),
            synthetic_tokens: SyntheticTokens::new(
                Permill::zero(),
                Permill::zero(),
                Permill::zero(),
                Vec::new(),
                update_origin,
                SYNTHETIC_TOKENS_ACCOUNT,
            ),
            synthetic_protocol: SyntheticProtocol::new(CurrencyId::AUSD),
            oracle: Oracle::new(update_origin),
        }
    }
}

} // verus!
