//! The liquidity bridge workflow.
//!
//! Moving liquidity into the external stable pool is a chain of
//! independently failing external calls: transfer USDT to the pool,
//! mint and transfer the matching stable tokens, re-query the pool's
//! recorded deposits, then commit the liquidity. The decisions of each
//! step live here, verified, on plain values; the shell performs the
//! calls and feeds each step the previous step's confirmed result.
//! A partially executed transfer is compensated by clamping the next
//! step to what actually arrived, and the deposit re-query guards the
//! final commitment against optimistic assumptions.

use crate::error::Error;
use crate::ledger::find_spec;
use crate::math::{
    lemma_pow10_pos, lemma_pow10_value, pow10, pow10_u128, MAX_POW10,
};
use crate::engine::Contract;
use crate::TOKEN_DECIMAL;
use vstd::prelude::*;

verus! {

/// Decimals of the bridged USDT token.
pub const USDT_DECIMALS: u8 = 6;

/// Smallest whole amount the workflow accepts.
pub const MINIMUM_DEPOSIT: u128 = 1_000_000;

/// The USDT/stable-token pool of the default (local) configuration;
/// deployment shells substitute the network's own pool.
pub const STABLE_POOL_ID: u64 = 0;

/// One liquidity transfer in flight, threaded through the chain.
#[derive(Clone, Copy, Debug, PartialEq, Eq, Structural)]
pub struct LiquidityTransferRequest {
    pub whole_amount: u128,
    pub deposit_attached: u128,
}

/// The first step of the chain: what to send to the pool.
#[derive(Clone, Copy, Debug, PartialEq, Eq, Structural)]
pub struct LiquidityStart {
    /// USDT units to transfer into the pool.
    pub usdt_amount: u128,
    /// Carried to the final step of the chain.
    pub request: LiquidityTransferRequest,
}

/// The second step's decision after the USDT transfer settled.
#[derive(Clone, Copy, Debug, PartialEq, Eq, Structural)]
pub enum MintOutcome {
    /// The USDT transfer failed or moved nothing: stop without minting.
    Skip,
    /// Transfer this many stable-token units to the pool, after minting
    /// the part the contract's own balance did not cover.
    TransferUsn { usn_amount: u128, minted: u128 },
}

/// The verified arguments of the final external pool call.
#[derive(Clone, Debug)]
pub struct AddLiquidityAction {
    pub pool_id: u64,
    /// One amount per pool token, in the order the pool reports.
    pub amounts: Vec<u128>,
    pub min_shares: u128,
}

/// What the external pool reports about the stable pool.
#[derive(Clone, Debug)]
pub struct StablePoolInfo {
    /// List of tokens in the pool.
    pub token_account_ids: Vec<String>,
    pub decimals: Vec<u8>,
    /// backend tokens.
    pub amounts: Vec<u128>,
    /// backend tokens in comparable precision
    pub c_amounts: Vec<u128>,
    /// Fee charged for swap.
    pub total_fee: u32,
    /// Total number of shares.
    pub shares_total_supply: u128,
    pub amp: u64,
}

/// Scales a whole (undecimalized) amount up by `decimals` places.
pub fn extend_decimals(whole: u128, decimals: u8) -> (r: u128)
    requires
        decimals <= MAX_POW10,
        whole * pow10(decimals as nat) <= u128::MAX,
    ensures
        r == whole * pow10(decimals as nat),
{
    let scale = pow10_u128(decimals);
    proof {
        lemma_pow10_pos(decimals as nat);
    }
    whole * scale
}

/// Drops `decimals` places from an amount, rounding down.
pub fn remove_decimals(amount: u128, decimals: u8) -> (r: u128)
    requires
        decimals <= MAX_POW10,
    ensures
        r == (amount as int) / (pow10(decimals as nat) as int),
{
    let scale = pow10_u128(decimals);
    amount / scale
}

/// `extend_decimals` with the overflow reported instead of excluded.
fn try_extend_decimals(whole: u128, decimals: u8) -> (r: Option<u128>)
    requires
        decimals <= MAX_POW10,
    ensures
        match r {
            Some(v) => v == whole * pow10(decimals as nat) && whole * pow10(decimals as nat)
                <= u128::MAX,
            None => whole * pow10(decimals as nat) > u128::MAX,
        },
{
    let scale = pow10_u128(decimals);
    whole.checked_mul(scale)
}

/// The amount recorded for `key` in a deposit listing, or zero.
pub open spec fn deposit_of(deposits: Seq<(String, u128)>, key: Seq<char>) -> u128 {
    match find_spec(deposits, key) {
        Some(v) => v,
        None => 0,
    }
}

/// Looks `key` up in a deposit listing; the first entry wins, and the
/// shell hands the listing over with unique keys.
fn lookup_deposit(deposits: &Vec<(String, u128)>, key: &String) -> (r: u128)
    ensures
        r == deposit_of(deposits@, key@),
{
    let mut i: usize = 0;
    while i < deposits.len()
        invariant
            i <= deposits@.len(),
            forall|j: int| 0 <= j < i ==> deposits@[j].0@ != key@,
        decreases deposits@.len() - i,
    {
        if deposits[i].0 == *key {
            proof {
                crate::ledger::lemma_find_at(deposits@, key@, i as int);
            }
            return deposits[i].1;
        }
        i = i + 1;
    }
    proof {
        crate::ledger::lemma_find_none(deposits@, key@);
    }
    0
}

impl Contract {
    /// The stable pool this contract feeds.
    pub fn stable_pool_id(&self) -> (r: u64)
        ensures
            r == STABLE_POOL_ID,
    {
        STABLE_POOL_ID
    }

    /// Opens the liquidity chain: validates the request and computes
    /// the USDT units of its first transfer. One unit of the attached
    /// deposit pays for that transfer; the rest is carried to the final
    /// step. The shell restricts this to the owner.
    pub fn transfer_stable_liquidity(&self, whole_amount: u128, attached_deposit: u128) -> (r:
        Result<LiquidityStart, Error>)
        ensures
            match r {
                Ok(start) => {
                    &&& attached_deposit > 0
                    &&& whole_amount >= MINIMUM_DEPOSIT
                    &&& whole_amount * pow10(USDT_DECIMALS as nat) <= u128::MAX
                    &&& start.usdt_amount == whole_amount * pow10(USDT_DECIMALS as nat)
                    &&& start.request.whole_amount == whole_amount
                    &&& start.request.deposit_attached == attached_deposit - 1
                },
                Err(e) => {
                    if attached_deposit == 0 {
                        e == Error::DepositRequired
                    } else if whole_amount < MINIMUM_DEPOSIT {
                        e == Error::BelowMinimumDeposit
                    } else {
                        e == Error::Overflow && whole_amount * pow10(USDT_DECIMALS as nat)
                            > u128::MAX
                    }
                },
            },
    {
        if attached_deposit == 0 {
            return Err(Error::DepositRequired);
        }
        if whole_amount < MINIMUM_DEPOSIT {
            return Err(Error::BelowMinimumDeposit);
        }
        let usdt_amount = match try_extend_decimals(whole_amount, USDT_DECIMALS) {
            Some(v) => v,
            None => {
                return Err(Error::Overflow);
            },
        };
        Ok(
            LiquidityStart {
                usdt_amount,
                request: LiquidityTransferRequest {
                    whole_amount,
                    deposit_attached: attached_deposit - 1,
                },
            },
        )
    }

    /// Continues the chain once the USDT transfer settled. A failed or
    /// empty transfer stops the chain without minting; a partial one is
    /// compensated by clamping to the whole units that actually moved.
    /// Whatever the contract's own balance does not cover of the
    /// stable-token leg is minted before the transfer to the pool.
    pub fn handle_transfer_then_mint(
        &mut self,
        whole_amount: u128,
        transfer_succeeded: bool,
        transferred_usdt_amount: u128,
        usn_account: &String,
    ) -> (r: Result<MintOutcome, Error>)
        requires
            old(self).wf(),
        ensures
            final(self).wf(),
            ({
                let transferred_whole = (transferred_usdt_amount as int) / (pow10(
                    USDT_DECIMALS as nat,
                ) as int);
                let clamped = if whole_amount <= transferred_whole {
                    whole_amount as int
                } else {
                    transferred_whole
                };
                let usn_amount = clamped * pow10(TOKEN_DECIMAL as nat);
                let bal = old(self).token.balance_spec(usn_account@);
                let sup = old(self).token.total_supply;
                match r {
                    Ok(MintOutcome::Skip) => {
                        &&& (!transfer_succeeded || transferred_usdt_amount == 0)
                        &&& *final(self) == *old(self)
                    },
                    Ok(MintOutcome::TransferUsn { usn_amount: out, minted }) => {
                        &&& transfer_succeeded && transferred_usdt_amount > 0
                        &&& usn_amount <= u128::MAX
                        &&& out == usn_amount
                        &&& if bal < usn_amount {
                            &&& minted == usn_amount - bal
                            &&& final(self).token.balance_spec(usn_account@) == usn_amount
                            &&& final(self).token.total_supply == sup + minted
                            &&& sup + minted <= u128::MAX
                        } else {
                            &&& minted == 0
                            &&& *final(self) == *old(self)
                        }
                        &&& forall|k: Seq<char>|
                            k != usn_account@ ==> final(self).token.balance_spec(k) == old(
                                self,
                            ).token.balance_spec(k)
                        &&& Self::same_except_token(*old(self), *final(self))
                    },
                    Err(e) => {
                        &&& transfer_succeeded && transferred_usdt_amount > 0
                        &&& *final(self) == *old(self)
                        &&& e == Error::Overflow
                        &&& (usn_amount > u128::MAX || (bal < usn_amount && sup + (usn_amount
                            - bal) > u128::MAX))
                    },
                }
            }),
    {
        if !transfer_succeeded || transferred_usdt_amount == 0 {
            return Ok(MintOutcome::Skip);
        }
        let usdt_whole_amount = remove_decimals(transferred_usdt_amount, USDT_DECIMALS);
        let clamped = if whole_amount <= usdt_whole_amount {
            whole_amount
        } else {
            usdt_whole_amount
        };
        let usn_amount = match try_extend_decimals(clamped, TOKEN_DECIMAL) {
            Some(v) => v,
            None => {
                return Err(Error::Overflow);
            },
        };
        let usn_balance = self.token.balance_of(usn_account);
        let minted: u128 = if usn_balance < usn_amount {
            let yet_to_mint = usn_amount - usn_balance;
            match self.token.internal_deposit(usn_account, yet_to_mint) {
                Ok(()) => {},
                Err(e) => {
                    return Err(e);
                },
            }
            yet_to_mint
        } else {
            0
        };
        Ok(MintOutcome::TransferUsn { usn_amount, minted })
    }

    /// Closes the chain: checks the pool's recorded deposits against
    /// the requested amounts — nothing is committed on a shortfall —
    /// and lays the amounts out in the token order the pool reports,
    /// refusing any instrument the workflow does not recognize.
    pub fn handle_deposit_then_add_liquidity(
        &self,
        whole_amount: u128,
        deposits: &Vec<(String, u128)>,
        info: &StablePoolInfo,
        usn_account: &String,
        usdt_account: &String,
    ) -> (r: Result<AddLiquidityAction, Error>)
        ensures
            ({
                let usn_amount = whole_amount * pow10(TOKEN_DECIMAL as nat);
                let usdt_amount = whole_amount * pow10(USDT_DECIMALS as nat);
                let usdt_deposit = deposit_of(deposits@, usdt_account@);
                let usn_deposit = deposit_of(deposits@, usn_account@);
                let ids = info.token_account_ids@;
                match r {
                    Ok(action) => {
                        &&& usn_amount <= u128::MAX && usdt_amount <= u128::MAX
                        &&& usdt_deposit >= usdt_amount
                        &&& usn_deposit >= usn_amount
                        &&& action.pool_id == STABLE_POOL_ID
                        &&& action.min_shares == 0
                        &&& action.amounts@.len() == ids.len()
                        &&& forall|i: int|
                            0 <= i < ids.len() ==> #[trigger] action.amounts@[i] == (
                            if ids[i]@ == usdt_account@ {
                                usdt_amount
                            } else {
                                usn_amount
                            })
                        &&& forall|i: int|
                            0 <= i < ids.len() ==> (#[trigger] ids[i]@) == usdt_account@ || ids[i]@
                                == usn_account@
                    },
                    Err(e) => {
                        if usn_amount > u128::MAX || usdt_amount > u128::MAX {
                            e == Error::Overflow
                        } else if usdt_deposit < usdt_amount {
                            e == Error::NotEnoughUsdt
                        } else if usn_deposit < usn_amount {
                            e == Error::NotEnoughUsn
                        } else {
                            e == Error::UnexpectedPoolToken && exists|i: int|
                                0 <= i < ids.len() && (#[trigger] ids[i]@) != usdt_account@
                                    && ids[i]@ != usn_account@
                        }
                    },
                }
            }),
    {
        let usn_amount = match try_extend_decimals(whole_amount, TOKEN_DECIMAL) {
            Some(v) => v,
            None => {
                return Err(Error::Overflow);
            },
        };
        let usdt_amount = match try_extend_decimals(whole_amount, USDT_DECIMALS) {
            Some(v) => v,
            None => {
                return Err(Error::Overflow);
            },
        };
        let usdt_deposit = lookup_deposit(deposits, usdt_account);
        let usn_deposit = lookup_deposit(deposits, usn_account);
        if usdt_deposit < usdt_amount {
            return Err(Error::NotEnoughUsdt);
        }
        if usn_deposit < usn_amount {
            return Err(Error::NotEnoughUsn);
        }
        // Preserve the sequence of token amounts.
        let mut token_amounts: Vec<u128> = Vec::new();
        let mut i: usize = 0;
        while i < info.token_account_ids.len()
            invariant
                i <= info.token_account_ids@.len(),
                token_amounts@.len() == i,
                usn_amount == whole_amount * pow10(TOKEN_DECIMAL as nat),
                usdt_amount == whole_amount * pow10(USDT_DECIMALS as nat),
                deposit_of(deposits@, usdt_account@) >= usdt_amount,
                deposit_of(deposits@, usn_account@) >= usn_amount,
                forall|j: int|
                    0 <= j < i ==> #[trigger] token_amounts@[j] == (
                    if info.token_account_ids@[j]@ == usdt_account@ {
                        usdt_amount
                    } else {
                        usn_amount
                    }),
                forall|j: int|
                    0 <= j < i ==> (#[trigger] info.token_account_ids@[j]@) == usdt_account@
                        || info.token_account_ids@[j]@ == usn_account@,
            decreases info.token_account_ids@.len() - i,
        {
            if info.token_account_ids[i] == *usdt_account {
                token_amounts.push(usdt_amount);
            } else if info.token_account_ids[i] == *usn_account {
                token_amounts.push(usn_amount);
            } else {
                proof {
                    let ids = info.token_account_ids@;
                    assert(0 <= i < ids.len() && (#[trigger] ids[i as int]@) != usdt_account@
                        && ids[i as int]@ != usn_account@);
                }
                return Err(Error::UnexpectedPoolToken);
            }
            i = i + 1;
        }
        Ok(AddLiquidityAction { pool_id: STABLE_POOL_ID, amounts: token_amounts, min_shares: 0 })
    }
}

} // verus!
