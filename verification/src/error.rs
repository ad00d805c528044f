//! Errors of the protocol modules, and the error every dispatchable call returns.
use vstd::prelude::*;

verus! {

/// Errors of the token ledger.
#[derive(Clone, Copy, Debug, PartialEq, Eq, Structural)]
pub enum TokenError {
    /// The account holds less than the amount.
    BalanceTooLow,
    /// The receiving balance would exceed `u128::MAX`.
    BalanceOverflow,
}

/// Errors of the base liquidity pools module.
#[derive(Clone, Copy, Debug, PartialEq, Eq, Structural)]
pub enum BasePoolsError {
    /// Caller doesn't have permission.
    NoPermission,
    /// No available pool id.
    NoAvailablePoolId,
    /// There is still liability, such as opened positions.
    CannotRemovePool,
    /// Liquidity amount overflows maximum.
    LiquidityOverflow,
    /// Not enough balance to withdraw.
    NotEnoughBalance,
    /// Cannot withdraw the existential deposit amount.
    CannotWithdrawExistentialDeposit,
    /// Pool not found.
    PoolNotFound,
    /// One of the identity information is too long.
    IdentityInfoTooLong,
    /// Identify information not found.
    IdentityInfoNotFound,
}

/// Errors of the margin liquidity pools module.
#[derive(Clone, Copy, Debug, PartialEq, Eq, Structural)]
pub enum MarginPoolsError {
    NoPermission,
    SwapRateTooHigh,
    SwapRateTooLow,
    SpreadTooHigh,
    TradingPairNotEnabled,
    NumOutOfBound,
    FrequencyTooLow,
}

/// Errors of the synthetic liquidity pools module.
#[derive(Clone, Copy, Debug, PartialEq, Eq, Structural)]
pub enum SyntheticPoolsError {
    NoPermission,
    SpreadTooHigh,
}

/// Errors of the synthetic protocol.
#[derive(Clone, Copy, Debug, PartialEq, Eq, Structural)]
pub enum SyntheticError {
    /// Insufficient liquidity in pool for minting.
    InsufficientLiquidityInPool,
    /// Required synthetic minting is not supported by pool.
    CannotMintInPool,
    /// Ask price is too high.
    AskPriceTooHigh,
    /// Bid price is too low.
    BidPriceTooLow,
    /// Number overflow in calculation.
    NumOverflow,
    /// No price from provider.
    NoPrice,
    /// Negative required additional amount from pool.
    NegativeAdditionalCollateralAmount,
    /// Insufficient amount of synthetic in the position for liquidation or redeeming.
    InsufficientSyntheticInPosition,
    /// Insufficient amount of collateral in the position for liquidation or redeeming.
    InsufficientCollateralInPosition,
    /// Insufficient amount of collateral locked in protocol.
    InsufficientLockedCollateral,
    /// Still in safe position and cannot be liquidated.
    StillInSafePosition,
    /// Caller doesn't have permission.
    NoPermission,
    /// Bid spread not set.
    NoBidSpread,
    /// Ask spread not set.
    NoAskSpread,
    /// The currency is not enabled in synthetic protocol.
    NotValidSyntheticCurrencyId,
}

/// Errors of the margin protocol.
#[derive(Clone, Copy, Debug, PartialEq, Eq, Structural)]
pub enum MarginError {
    /// No price from provider.
    NoPrice,
    /// Ask spread not set.
    NoAskSpread,
    /// Bid spread not set.
    NoBidSpread,
    /// Market price is too high.
    MarketPriceTooHigh,
    /// Market price is too low.
    MarketPriceTooLow,
    /// Number out of bound in calculation.
    NumOutOfBound,
    /// Trader is not safe.
    UnsafeTrader,
    /// Liquidity pool is not safe.
    UnsafePool,
    /// Pool would be unsafe.
    PoolWouldBeUnsafe,
    /// Trader is safe.
    SafeTrader,
    /// Pool is safe.
    SafePool,
    /// Not reach risk threshold yet.
    NotReachedRiskThreshold,
    /// Trader has been margin called.
    MarginCalledTrader,
    /// Pool has been margin called.
    MarginCalledPool,
    /// No available position id.
    NoAvailablePositionId,
    /// Position not found.
    PositionNotFound,
    /// Position is not opened by caller.
    PositionNotOpenedByTrader,
    /// Leverage not allowed in pool.
    LeverageNotAllowedInPool,
    /// Trading pair not enabled in protocol.
    TradingPairNotEnabled,
    /// Trading pair not enabled in pool.
    TradingPairNotEnabledInPool,
    /// Leveraged amount is below minimum.
    BelowMinLeveragedAmount,
    /// Positions count reached maximum.
    CannotOpenMorePosition,
    /// Insufficient free margin.
    InsufficientFreeMargin,
    /// Risk threshold not set.
    NoRiskThreshold,
}

/// Errors of the oracle.
#[derive(Clone, Copy, Debug, PartialEq, Eq, Structural)]
pub enum OracleError {
    /// Only operators can feed data.
    NotOperator,
}

/// The error of a dispatchable call: the module that failed and its error.
#[derive(Clone, Copy, Debug, PartialEq, Eq, Structural)]
pub enum DispatchError {
    /// The caller is not allowed to make this call.
    BadOrigin,
    Tokens(TokenError),
    BaseLiquidityPools(BasePoolsError),
    MarginLiquidityPools(MarginPoolsError),
    SyntheticLiquidityPools(SyntheticPoolsError),
    SyntheticProtocol(SyntheticError),
    MarginProtocol(MarginError),
    Oracle(OracleError),
}

} // verus!
