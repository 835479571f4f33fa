//! Error taxonomy of the settlement core.
//!
//! Every validation failure happens before any state mutation in the
//! step that detects it, and every fatal condition is surfaced to the
//! caller as one of these variants; nothing is swallowed.

use vstd::prelude::*;

verus! {

#[derive(Clone, Copy, Debug, PartialEq, Eq, Structural)]
pub enum Error {
    /// The fresh exchange rate moved outside the caller's declared band.
    SlippageExceeded,
    /// The trade is too small: it would mint zero stable tokens.
    ZeroOutput,
    /// Selling zero tokens is rejected before any computation.
    ZeroInput,
    /// The fetched price data was already expired when it arrived.
    StalePriceFeed,
    /// A fixed-point computation left the representable 128-bit range.
    Overflow,
    /// A downstream asset movement did not complete.
    TransferFailed,
    /// The external pool reported an instrument this workflow does not know.
    UnexpectedPoolToken,
    /// The account's ledger balance cannot cover the requested debit.
    InsufficientBalance,
    /// A commission above the maximum spread was rejected.
    SpreadLimitExceeded,
    /// The contract is paused for maintenance.
    ContractPaused,
    /// The calling account is blacklisted.
    AccountBanned,
    /// Funds can only be destroyed on a banned account.
    AccountNotBanned,
    /// The liquidity transfer needs an attached deposit.
    DepositRequired,
    /// The liquidity transfer is below the minimum whole amount.
    BelowMinimumDeposit,
    /// The pool's recorded USDT deposit is smaller than requested.
    NotEnoughUsdt,
    /// The pool's recorded stable-token deposit is smaller than requested.
    NotEnoughUsn,
}

} // verus!
