//! The Laminar trading protocols, verified: fixed-point arithmetic, the shared
//! primitives, liquidity pools, synthetic tokens and the margin protocol.
pub mod fixed;
pub mod table;
pub mod primitives;
pub mod arithmetic;
pub mod error;
pub mod ledger;
pub mod base_pools;
pub mod prices;
pub mod synthetic_tokens;
pub mod synthetic_pools;
pub mod synthetic_protocol;
pub mod margin_pools;
pub mod margin_protocol;
pub mod oracle;
pub mod mock;
