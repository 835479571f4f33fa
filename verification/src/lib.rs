//! Settlement core of a collateral-free stablecoin: an oracle-anchored
//! exchange engine (buy/sell with overflow-safe widened arithmetic, a
//! commission policy and slippage-bound validation) together with the
//! decision logic of a multi-step liquidity workflow.
//!
//! Everything here works on plain values; the surrounding blockchain
//! shell performs the external calls and hands their results in.

pub mod engine;
pub mod error;
pub mod ledger;
pub mod math;
pub mod oracle;
pub mod pool;
pub mod spread;

pub use engine::{BlackListStatus, Contract, ContractStatus, ExpectedRate, SettlementRequest};
pub use error::Error;
pub use ledger::Ledger;
pub use oracle::{ExchangeRate, Oracle, PriceData, RateOrPending};
pub use pool::{AddLiquidityAction, LiquidityStart, LiquidityTransferRequest, MintOutcome, StablePoolInfo};
pub use spread::SpreadPolicy;

use vstd::prelude::*;

verus! {

/// Decimals of the stable token itself.
pub const TOKEN_DECIMAL: u8 = 18;

/// Largest rate exponent the conversion accepts: the scaling factor
/// `10^(decimals - TOKEN_DECIMAL)` must fit into 128 bits.
pub const MAX_RATE_DECIMALS: u8 = 56;

} // verus!

