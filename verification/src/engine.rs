//! The contract aggregate and its settlement engine.
//!
//! Buying converts the base asset into stable tokens through the
//! current exchange rate, removes the commission, and mints the result;
//! selling removes the commission first and converts back through the
//! rate in the opposite direction. Both validate a caller-supplied
//! slippage band before touching any state, and both finishing
//! functions are the single code path used whether the rate came from
//! the cache or from a completed asynchronous fetch.
//!
//! Authorization (owner/guardian checks) and the attached-deposit
//! handling of the host are the surrounding shell's duty; the engine
//! guards everything else: pausing, blacklisting, slippage, dust
//! trades, and overflow.

use crate::error::Error;
use crate::ledger::Ledger;
use crate::math::{lemma_pow10_le, lemma_pow10_pos, lemma_pow10_value, mul_div, pow10, pow10_u128};
use crate::oracle::{ExchangeRate, Oracle, RateOrPending};
use crate::spread::{SpreadPolicy, MAX_SPREAD, SPREAD_DENOMINATOR};
use crate::TOKEN_DECIMAL;
use vstd::arithmetic::div_mod::{
    lemma_div_is_ordered, lemma_div_multiples_vanish, lemma_div_pos_is_pos,
    lemma_fundamental_div_mod, lemma_mod_division_less_than_divisor,
};
use vstd::pervasive::unreached;
use vstd::prelude::*;

verus! {

/// Whether an address may act at all.
#[derive(Clone, Copy, Debug, PartialEq, Eq, Structural)]
pub enum BlackListStatus {
    /// An address might be using
    Allowable,
    /// All acts with an address have to be banned
    Banned,
}

/// Whether the contract accepts operations.
#[derive(Clone, Copy, Debug, PartialEq, Eq, Structural)]
pub enum ContractStatus {
    Working,
    Paused,
}

/// The caller's tolerance band around the rate it expects to trade at.
#[derive(Clone, Copy, Debug, PartialEq, Eq, Structural)]
pub struct ExpectedRate {
    pub multiplier: u128,
    pub slippage: u128,
    pub decimals: u8,
}

/// One buy or sell in flight, carried from the entry point to the
/// finishing step across an asynchronous price fetch.
#[derive(Clone, Debug)]
pub struct SettlementRequest {
    pub account: String,
    pub input_amount: u128,
    pub expected_rate: Option<ExpectedRate>,
}

/// The contract instance: status and abuse guards, the price cache,
/// the commission policy, and the model of the stable-token ledger.
#[derive(Clone, Debug)]
pub struct Contract {
    pub owner_id: String,
    pub status: ContractStatus,
    pub black_list: Vec<String>,
    pub oracle: Oracle,
    pub spread: SpreadPolicy,
    pub token: Ledger,
}

/// The actual rate lies inside the caller's declared band and speaks
/// the same decimals.
pub open spec fn slippage_ok(actual: ExchangeRate, expected: ExpectedRate) -> bool {
    &&& actual.decimals == expected.decimals
    &&& expected.multiplier - expected.slippage <= actual.multiplier as int
    &&& actual.multiplier as int <= expected.multiplier + expected.slippage
}

/// Base asset converted to stable tokens at `rate`, before commission.
pub open spec fn gross_spec(near: u128, rate: ExchangeRate) -> int {
    (near as int) * (rate.multiplier as int) / (pow10(
        (rate.decimals - TOKEN_DECIMAL) as nat,
    ) as int)
}

/// `amount` with the commission fraction `spread` removed.
pub open spec fn net_after_commission(amount: int, spread: u128) -> int {
    amount * (SPREAD_DENOMINATOR - spread) / (SPREAD_DENOMINATOR as int)
}

/// Stable-token value converted back to the base asset at `rate`,
/// after the commission was removed from it.
pub open spec fn sell_deposit_of(value: int, rate: ExchangeRate, spread: u128) -> int {
    net_after_commission(value, spread) * (pow10(
        (rate.decimals - TOKEN_DECIMAL) as nat,
    ) as int) / (rate.multiplier as int)
}

/// Stable tokens converted back to the base asset at `rate`, after the
/// commission was removed from `amount`.
pub open spec fn sell_deposit_spec(amount: u128, rate: ExchangeRate, spread: u128) -> int {
    sell_deposit_of(amount as int, rate, spread)
}

/// Removing a commission never grows the amount, so the result of
/// `net_after_commission` always fits wherever its input fit.
pub proof fn lemma_commission_le(amount: u128, spread: u128)
    requires
        spread <= MAX_SPREAD,
    ensures
        0 <= net_after_commission(amount as int, spread) <= amount,
{
    let d = SPREAD_DENOMINATOR as int;
    let m = d - spread;
    assert(amount as int * m >= 0 && amount as int * m <= amount as int * d) by (nonlinear_arith)
        requires
            0 < m <= d,
            amount >= 0,
    ;
    lemma_div_is_ordered(amount as int * m, amount as int * d, d);
    lemma_div_multiples_vanish(amount as int, d);
    assert(amount as int * d == d * amount as int);
    lemma_div_pos_is_pos(amount as int * m, d);
}

/// Slippage validation as executable code.
pub fn exchange_rate_ok(actual: &ExchangeRate, expected: &ExpectedRate) -> (b: bool)
    ensures
        b == slippage_ok(*actual, *expected),
{
    if actual.decimals != expected.decimals {
        return false;
    }
    let start = if expected.multiplier >= expected.slippage {
        expected.multiplier - expected.slippage
    } else {
        0
    };
    if actual.multiplier < start {
        return false;
    }
    match expected.multiplier.checked_add(expected.slippage) {
        Some(end) => actual.multiplier <= end,
        None => true,
    }
}

impl Contract {
    /// `key` is on the blacklist.
    pub open spec fn banned_spec(&self, key: Seq<char>) -> bool {
        exists|i: int| 0 <= i < self.black_list@.len() && self.black_list@[i]@ == key
    }

    /// No address is listed twice.
    pub open spec fn blacklist_unique(&self) -> bool {
        forall|i: int, j: int|
            0 <= i < j < self.black_list@.len() ==> self.black_list@[i]@ != self.black_list@[j]@
    }

    pub open spec fn wf(&self) -> bool {
        &&& self.oracle.wf()
        &&& self.spread.wf()
        &&& self.token.wf()
        &&& self.blacklist_unique()
    }

    /// Everything except the status agrees between `a` and `b`.
    pub open spec fn same_except_status(a: Contract, b: Contract) -> bool {
        &&& a.owner_id == b.owner_id
        &&& a.black_list == b.black_list
        &&& a.oracle == b.oracle
        &&& a.spread == b.spread
        &&& a.token == b.token
    }

    /// Everything except the commission policy agrees between `a` and `b`.
    pub open spec fn same_except_spread(a: Contract, b: Contract) -> bool {
        &&& a.owner_id == b.owner_id
        &&& a.status == b.status
        &&& a.black_list == b.black_list
        &&& a.oracle == b.oracle
        &&& a.token == b.token
    }

    /// Everything except the blacklist agrees between `a` and `b`.
    pub open spec fn same_except_blacklist(a: Contract, b: Contract) -> bool {
        &&& a.owner_id == b.owner_id
        &&& a.status == b.status
        &&& a.oracle == b.oracle
        &&& a.spread == b.spread
        &&& a.token == b.token
    }

    /// Everything except the token ledger agrees between `a` and `b`.
    pub open spec fn same_except_token(a: Contract, b: Contract) -> bool {
        &&& a.owner_id == b.owner_id
        &&& a.status == b.status
        &&& a.black_list == b.black_list
        &&& a.oracle == b.oracle
        &&& a.spread == b.spread
    }

    /// A working contract owned by `owner_id`, with an empty price
    /// cache, the adaptive commission curve, an empty blacklist, and a
    /// ledger holding a zero balance for the owner.
    pub fn new(owner_id: String) -> (r: Self)
        ensures
            r.wf(),
            r.owner_id == owner_id,
            r.status == ContractStatus::Working,
            r.spread == SpreadPolicy::Adaptive,
            r.oracle.last_report.is_none(),
            r.token.total_supply == 0,
            forall|k: Seq<char>| r.token.balance_spec(k) == 0,
            forall|k: Seq<char>| !r.banned_spec(k),
    {
        let token = Ledger::new(owner_id.clone());
        Contract {
            owner_id,
            status: ContractStatus::Working,
            black_list: Vec::new(),
            oracle: Oracle::default(),
            spread: SpreadPolicy::Adaptive,
            token,
        }
    }

    pub fn contract_status(&self) -> (r: ContractStatus)
        ensures
            r == self.status,
    {
        self.status
    }

    /// Suspends operations. The shell restricts this to owner and guardians.
    pub fn pause(&mut self)
        ensures
            final(self).status == ContractStatus::Paused,
            Self::same_except_status(*old(self), *final(self)),
            old(self).wf() ==> final(self).wf(),
    {
        self.status = ContractStatus::Paused;
    }

    /// Resumes operations. The shell restricts this to the owner.
    pub fn resume(&mut self)
        ensures
            final(self).status == ContractStatus::Working,
            Self::same_except_status(*old(self), *final(self)),
            old(self).wf() ==> final(self).wf(),
    {
        self.status = ContractStatus::Working;
    }

    fn blacklist_index(&self, account: &String) -> (r: Option<usize>)
        ensures
            match r {
                Some(i) => {
                    &&& i < self.black_list@.len()
                    &&& self.black_list@[i as int]@ == account@
                    &&& self.banned_spec(account@)
                },
                None => !self.banned_spec(account@),
            },
    {
        let mut i: usize = 0;
        while i < self.black_list.len()
            invariant
                i <= self.black_list@.len(),
                forall|j: int| 0 <= j < i ==> self.black_list@[j]@ != account@,
            decreases self.black_list@.len() - i,
        {
            if self.black_list[i] == *account {
                return Some(i);
            }
            i = i + 1;
        }
        None
    }

    pub fn blacklist_status(&self, account_id: &String) -> (r: BlackListStatus)
        ensures
            r == if self.banned_spec(account_id@) {
                BlackListStatus::Banned
            } else {
                BlackListStatus::Allowable
            },
    {
        match self.blacklist_index(account_id) {
            Some(_) => BlackListStatus::Banned,
            None => BlackListStatus::Allowable,
        }
    }

    /// Bans an address. The shell restricts this to the owner.
    pub fn add_to_blacklist(&mut self, account_id: &String) -> (r: Result<(), Error>)
        requires
            old(self).wf(),
        ensures
            final(self).wf(),
            match r {
                Ok(()) => {
                    &&& old(self).status != ContractStatus::Paused
                    &&& final(self).banned_spec(account_id@)
                    &&& forall|k: Seq<char>|
                        k != account_id@ ==> final(self).banned_spec(k) == old(self).banned_spec(k)
                    &&& Self::same_except_blacklist(*old(self), *final(self))
                },
                Err(e) => {
                    &&& e == Error::ContractPaused
                    &&& old(self).status == ContractStatus::Paused
                    &&& *final(self) == *old(self)
                },
            },
    {
        if self.is_paused() {
            return Err(Error::ContractPaused);
        }
        match self.blacklist_index(account_id) {
            Some(_) => Ok(()),
            None => {
                self.black_list.push(account_id.clone());
                proof {
                    let s_old = old(self).black_list@;
                    let s_new = self.black_list@;
                    assert(s_new[s_new.len() - 1]@ == account_id@);
                    assert(self.banned_spec(account_id@));
                    assert forall|k: Seq<char>| k != account_id@ implies #[trigger] self.banned_spec(
                        k,
                    ) == old(self).banned_spec(k) by {
                        if old(self).banned_spec(k) {
                            let i = choose|i: int|
                                0 <= i < s_old.len() && s_old[i]@ == k;
                            assert(s_new[i]@ == k);
                        }
                        if self.banned_spec(k) {
                            let i = choose|i: int|
                                0 <= i < s_new.len() && s_new[i]@ == k;
                            assert(i < s_old.len());
                            assert(s_old[i]@ == k);
                        }
                    }
                }
                Ok(())
            },
        }
    }

    /// Lifts a ban. The shell restricts this to the owner.
    pub fn remove_from_blacklist(&mut self, account_id: &String) -> (r: Result<(), Error>)
        requires
            old(self).wf(),
        ensures
            final(self).wf(),
            match r {
                Ok(()) => {
                    &&& old(self).status != ContractStatus::Paused
                    &&& !final(self).banned_spec(account_id@)
                    &&& forall|k: Seq<char>|
                        k != account_id@ ==> final(self).banned_spec(k) == old(self).banned_spec(k)
                    &&& Self::same_except_blacklist(*old(self), *final(self))
                },
                Err(e) => {
                    &&& e == Error::ContractPaused
                    &&& old(self).status == ContractStatus::Paused
                    &&& *final(self) == *old(self)
                },
            },
    {
        if self.is_paused() {
            return Err(Error::ContractPaused);
        }
        match self.blacklist_index(account_id) {
            None => Ok(()),
            Some(i) => {
                self.black_list.remove(i);
                proof {
                    let s_old = old(self).black_list@;
                    let s_new = self.black_list@;
                    assert(s_new =~= s_old.remove(i as int));
                    assert forall|j: int| 0 <= j < s_new.len() implies s_new[j]@ != account_id@ by {
                        if j < i {
                            assert(s_new[j] == s_old[j]);
                        } else {
                            assert(s_new[j] == s_old[j + 1]);
                        }
                    }
                    assert(!self.banned_spec(account_id@));
                    assert forall|k: Seq<char>| k != account_id@ implies #[trigger] self.banned_spec(
                        k,
                    ) == old(self).banned_spec(k) by {
                        if old(self).banned_spec(k) {
                            let j = choose|j: int|
                                0 <= j < s_old.len() && s_old[j]@ == k;
                            if j < i {
                                assert(s_new[j]@ == k);
                            } else {
                                assert(j != i);
                                assert(s_new[j - 1]@ == k);
                            }
                        }
                        if self.banned_spec(k) {
                            let j = choose|j: int|
                                0 <= j < s_new.len() && s_new[j]@ == k;
                            if j < i {
                                assert(s_old[j]@ == k);
                            } else {
                                assert(s_old[j + 1]@ == k);
                            }
                        }
                    }
                }
                Ok(())
            },
        }
    }

    /// Wipes a banned account's balance and removes it from the total
    /// supply. The shell restricts this to the owner.
    pub fn destroy_black_funds(&mut self, account_id: &String) -> (r: Result<(), Error>)
        requires
            old(self).wf(),
        ensures
            final(self).wf(),
            match r {
                Ok(()) => {
                    &&& old(self).status != ContractStatus::Paused
                    &&& old(self).banned_spec(account_id@)
                    &&& old(self).token.balance_spec(account_id@) > 0
                    &&& final(self).token.balance_spec(account_id@) == 0
                    &&& forall|k: Seq<char>|
                        k != account_id@ ==> final(self).token.balance_spec(k) == old(
                            self,
                        ).token.balance_spec(k)
                    &&& final(self).token.total_supply == old(self).token.total_supply - old(
                        self,
                    ).token.balance_spec(account_id@)
                    &&& Self::same_except_token(*old(self), *final(self))
                },
                Err(e) => {
                    &&& *final(self) == *old(self)
                    &&& if old(self).status == ContractStatus::Paused {
                        e == Error::ContractPaused
                    } else if !old(self).banned_spec(account_id@) {
                        e == Error::AccountNotBanned
                    } else if old(self).token.balance_spec(account_id@) == 0 {
                        e == Error::InsufficientBalance
                    } else {
                        e == Error::Overflow && old(self).token.balance_spec(account_id@) > old(
                            self,
                        ).token.total_supply
                    }
                },
            },
    {
        if self.is_paused() {
            return Err(Error::ContractPaused);
        }
        if matches!(self.blacklist_status(account_id), BlackListStatus::Allowable) {
            return Err(Error::AccountNotBanned);
        }
        let black_balance = self.token.balance_of(account_id);
        if black_balance == 0 {
            return Err(Error::InsufficientBalance);
        }
        match self.token.internal_withdraw(account_id, black_balance) {
            Ok(()) => Ok(()),
            Err(e) => Err(e),
        }
    }

    fn is_paused(&self) -> (b: bool)
        ensures
            b == (self.status == ContractStatus::Paused),
    {
        matches!(self.status, ContractStatus::Paused)
    }

    pub fn ft_balance_of(&self, account_id: &String) -> (r: u128)
        ensures
            r == self.token.balance_spec(account_id@),
    {
        self.token.balance_of(account_id)
    }

    pub fn ft_total_supply(&self) -> (r: u128)
        ensures
            r == self.token.total_supply,
    {
        self.token.total_supply
    }

    /// The decimal places of the stable token.
    pub fn decimals(&self) -> (r: u8)
        ensures
            r == TOKEN_DECIMAL,
    {
        TOKEN_DECIMAL
    }

    /// The commission fraction the current policy charges. For the
    /// adaptive policy the caller supplies the curve's value at the
    /// trade's clamped size, since the exponential curve is evaluated
    /// in floating point outside this library.
    pub fn spread(&self, adaptive_fraction: u128) -> (r: u128)
        requires
            self.wf(),
            adaptive_fraction <= MAX_SPREAD,
        ensures
            r == self.spread.resolve_spec(adaptive_fraction),
            r <= MAX_SPREAD,
    {
        match self.spread {
            SpreadPolicy::Fixed(fraction) => fraction,
            SpreadPolicy::Adaptive => adaptive_fraction,
        }
    }

    /// Installs a fixed commission fraction; anything above the spread
    /// limit is rejected and leaves the previous policy in place. The
    /// shell restricts this to the owner.
    pub fn set_fixed_spread(&mut self, spread: u128) -> (r: Result<(), Error>)
        requires
            old(self).wf(),
        ensures
            final(self).wf(),
            match r {
                Ok(()) => {
                    &&& old(self).status != ContractStatus::Paused
                    &&& spread <= MAX_SPREAD
                    &&& final(self).spread == SpreadPolicy::Fixed(spread)
                    &&& Self::same_except_spread(*old(self), *final(self))
                },
                Err(e) => {
                    &&& *final(self) == *old(self)
                    &&& if old(self).status == ContractStatus::Paused {
                        e == Error::ContractPaused
                    } else {
                        e == Error::SpreadLimitExceeded && spread > MAX_SPREAD
                    }
                },
            },
    {
        if self.is_paused() {
            return Err(Error::ContractPaused);
        }
        if spread > MAX_SPREAD {
            return Err(Error::SpreadLimitExceeded);
        }
        self.spread = SpreadPolicy::Fixed(spread);
        Ok(())
    }

    /// Switches the commission back to the adaptive curve. The shell
    /// restricts this to the owner.
    pub fn set_adaptive_spread(&mut self) -> (r: Result<(), Error>)
        requires
            old(self).wf(),
        ensures
            final(self).wf(),
            match r {
                Ok(()) => {
                    &&& old(self).status != ContractStatus::Paused
                    &&& final(self).spread == SpreadPolicy::Adaptive
                    &&& Self::same_except_spread(*old(self), *final(self))
                },
                Err(e) => {
                    &&& e == Error::ContractPaused
                    &&& old(self).status == ContractStatus::Paused
                    &&& *final(self) == *old(self)
                },
            },
    {
        if self.is_paused() {
            return Err(Error::ContractPaused);
        }
        self.spread = SpreadPolicy::Adaptive;
        Ok(())
    }

    /// Starts a buy (base asset to stable tokens): guards the call and
    /// reads the price cache. The caller finishes synchronously with
    /// the returned rate when it is fresh, or fetches price data and
    /// re-enters through the oracle and `finish_buy` — the finishing
    /// logic is the same single function on both paths.
    pub fn buy(
        &self,
        caller: &String,
        to: Option<String>,
        attached_near: u128,
        expected: Option<ExpectedRate>,
        now: u64,
    ) -> (r: Result<(SettlementRequest, RateOrPending), Error>)
        ensures
            match r {
                Ok(start) => {
                    &&& self.status != ContractStatus::Paused
                    &&& !self.banned_spec(caller@)
                    &&& start.0.account@ == (match to {
                        Some(t) => t@,
                        None => caller@,
                    })
                    &&& start.0.input_amount == attached_near
                    &&& start.0.expected_rate == expected
                    &&& start.1 == self.oracle.read_spec(now)
                },
                Err(e) => {
                    if self.status == ContractStatus::Paused {
                        e == Error::ContractPaused
                    } else {
                        e == Error::AccountBanned && self.banned_spec(caller@)
                    }
                },
            },
    {
        if self.is_paused() {
            return Err(Error::ContractPaused);
        }
        if matches!(self.blacklist_status(caller), BlackListStatus::Banned) {
            return Err(Error::AccountBanned);
        }
        let account = match to {
            Some(t) => t,
            None => caller.clone(),
        };
        let request = SettlementRequest {
            account,
            input_amount: attached_near,
            expected_rate: expected,
        };
        Ok((request, self.oracle.get_exchange_rate(now)))
    }

    /// Starts a sell (stable tokens to base asset): guards the call,
    /// rejects a zero amount before any computation, and reads the
    /// price cache exactly as `buy` does.
    pub fn sell(&self, caller: &String, amount: u128, expected: Option<ExpectedRate>, now: u64) -> (r:
        Result<(SettlementRequest, RateOrPending), Error>)
        ensures
            match r {
                Ok(start) => {
                    &&& self.status != ContractStatus::Paused
                    &&& !self.banned_spec(caller@)
                    &&& amount > 0
                    &&& start.0.account@ == caller@
                    &&& start.0.input_amount == amount
                    &&& start.0.expected_rate == expected
                    &&& start.1 == self.oracle.read_spec(now)
                },
                Err(e) => {
                    if self.status == ContractStatus::Paused {
                        e == Error::ContractPaused
                    } else if self.banned_spec(caller@) {
                        e == Error::AccountBanned
                    } else {
                        e == Error::ZeroInput && amount == 0
                    }
                },
            },
    {
        if self.is_paused() {
            return Err(Error::ContractPaused);
        }
        if matches!(self.blacklist_status(caller), BlackListStatus::Banned) {
            return Err(Error::AccountBanned);
        }
        if amount == 0 {
            return Err(Error::ZeroInput);
        }
        let request = SettlementRequest {
            account: caller.clone(),
            input_amount: amount,
            expected_rate: expected,
        };
        Ok((request, self.oracle.get_exchange_rate(now)))
    }

    /// Completes a purchase: validates the slippage band, converts the
    /// base asset through the rate with widened arithmetic, removes the
    /// commission, rejects dust trades, and mints the proceeds. Nothing
    /// is mutated on any failure; the shell emits the mint notification
    /// exactly when this returns successfully.
    pub fn finish_buy(
        &mut self,
        account: &String,
        near: u128,
        expected: Option<ExpectedRate>,
        rate: ExchangeRate,
        adaptive_fraction: u128,
    ) -> (r: Result<u128, Error>)
        requires
            old(self).wf(),
            rate.wf(),
            adaptive_fraction <= MAX_SPREAD,
        ensures
            final(self).wf(),
            ({
                let spread = old(self).spread.resolve_spec(adaptive_fraction);
                let gross = gross_spec(near, rate);
                let net = net_after_commission(gross, spread);
                let bal = old(self).token.balance_spec(account@);
                let sup = old(self).token.total_supply;
                match r {
                    Ok(out) => {
                        &&& match expected {
                            Some(e) => slippage_ok(rate, e),
                            None => true,
                        }
                        &&& gross <= u128::MAX
                        &&& out == net
                        &&& net > 0
                        &&& bal + net <= u128::MAX
                        &&& sup + net <= u128::MAX
                        &&& final(self).token.balance_spec(account@) == bal + net
                        &&& forall|k: Seq<char>|
                            k != account@ ==> final(self).token.balance_spec(k) == old(
                                self,
                            ).token.balance_spec(k)
                        &&& final(self).token.total_supply == sup + net
                        &&& Self::same_except_token(*old(self), *final(self))
                    },
                    Err(e) => {
                        &&& *final(self) == *old(self)
                        &&& if (match expected {
                            Some(x) => !slippage_ok(rate, x),
                            None => false,
                        }) {
                            e == Error::SlippageExceeded
                        } else if gross > u128::MAX {
                            e == Error::Overflow
                        } else if net == 0 {
                            e == Error::ZeroOutput
                        } else {
                            e == Error::Overflow && (bal + net > u128::MAX || sup + net
                                > u128::MAX)
                        }
                    },
                }
            }),
    {
        if let Some(exp) = &expected {
            if !exchange_rate_ok(&rate, exp) {
                return Err(Error::SlippageExceeded);
            }
        }
        proof {
            lemma_pow10_value();
            lemma_pow10_le((rate.decimals - TOKEN_DECIMAL) as nat, 38);
            lemma_pow10_pos((rate.decimals - TOKEN_DECIMAL) as nat);
        }
        let divisor = pow10_u128(rate.decimals - TOKEN_DECIMAL);
        let gross = match mul_div(near, rate.multiplier, divisor) {
            Some(g) => g,
            None => {
                return Err(Error::Overflow);
            },
        };
        let spread_fraction = match self.spread {
            SpreadPolicy::Fixed(fraction) => fraction,
            SpreadPolicy::Adaptive => adaptive_fraction,
        };
        proof {
            lemma_commission_le(gross, spread_fraction);
        }
        let amount = match mul_div(gross, SPREAD_DENOMINATOR - spread_fraction, SPREAD_DENOMINATOR) {
            Some(a) => a,
            None => {
                return unreached();
            },
        };
        if amount == 0 {
            return Err(Error::ZeroOutput);
        }
        match self.token.internal_deposit(account, amount) {
            Ok(()) => Ok(amount),
            Err(e) => Err(e),
        }
    }

    /// Completes a sale: validates the slippage band, removes the
    /// commission from the amount first, converts back through the rate
    /// in the opposite direction, and burns the sold tokens. The
    /// computed base-asset deposit is handed back for the shell to
    /// transfer; per design the debit is not reversed if that transfer
    /// later fails (see `return_value`).
    pub fn finish_sell(
        &mut self,
        account: &String,
        amount: u128,
        expected: Option<ExpectedRate>,
        rate: ExchangeRate,
        adaptive_fraction: u128,
    ) -> (r: Result<u128, Error>)
        requires
            old(self).wf(),
            rate.wf(),
            rate.multiplier > 0,
            adaptive_fraction <= MAX_SPREAD,
        ensures
            final(self).wf(),
            ({
                let spread = old(self).spread.resolve_spec(adaptive_fraction);
                let deposit = sell_deposit_spec(amount, rate, spread);
                let bal = old(self).token.balance_spec(account@);
                let sup = old(self).token.total_supply;
                match r {
                    Ok(out) => {
                        &&& match expected {
                            Some(e) => slippage_ok(rate, e),
                            None => true,
                        }
                        &&& deposit <= u128::MAX
                        &&& out == deposit
                        &&& amount <= bal
                        &&& amount <= sup
                        &&& final(self).token.balance_spec(account@) == bal - amount
                        &&& forall|k: Seq<char>|
                            k != account@ ==> final(self).token.balance_spec(k) == old(
                                self,
                            ).token.balance_spec(k)
                        &&& final(self).token.total_supply == sup - amount
                        &&& Self::same_except_token(*old(self), *final(self))
                    },
                    Err(e) => {
                        &&& *final(self) == *old(self)
                        &&& if (match expected {
                            Some(x) => !slippage_ok(rate, x),
                            None => false,
                        }) {
                            e == Error::SlippageExceeded
                        } else if deposit > u128::MAX {
                            e == Error::Overflow
                        } else if amount > bal {
                            e == Error::InsufficientBalance
                        } else {
                            e == Error::Overflow && amount > sup
                        }
                    },
                }
            }),
    {
        if let Some(exp) = &expected {
            if !exchange_rate_ok(&rate, exp) {
                return Err(Error::SlippageExceeded);
            }
        }
        let spread_fraction = match self.spread {
            SpreadPolicy::Fixed(fraction) => fraction,
            SpreadPolicy::Adaptive => adaptive_fraction,
        };
        proof {
            lemma_commission_le(amount, spread_fraction);
        }
        let sell_value = match mul_div(
            amount,
            SPREAD_DENOMINATOR - spread_fraction,
            SPREAD_DENOMINATOR,
        ) {
            Some(v) => v,
            None => {
                return unreached();
            },
        };
        proof {
            lemma_pow10_value();
            lemma_pow10_le((rate.decimals - TOKEN_DECIMAL) as nat, 38);
            lemma_pow10_pos((rate.decimals - TOKEN_DECIMAL) as nat);
        }
        let scale = pow10_u128(rate.decimals - TOKEN_DECIMAL);
        let deposit = match mul_div(sell_value, scale, rate.multiplier) {
            Some(d) => d,
            None => {
                return Err(Error::Overflow);
            },
        };
        match self.token.internal_withdraw(account, amount) {
            Ok(()) => Ok(deposit),
            Err(e) => Err(e),
        }
    }

    /// Confirms the outgoing transfer of a sale's proceeds. The debit
    /// already happened; a failed transfer is surfaced but deliberately
    /// not compensated — an accepted risk of the settlement order.
    pub fn return_value(transfer_succeeded: bool, value: u128) -> (r: Result<u128, Error>)
        ensures
            r == if transfer_succeeded {
                Ok::<u128, Error>(value)
            } else {
                Err::<u128, Error>(Error::TransferFailed)
            },
    {
        if transfer_succeeded {
            Ok(value)
        } else {
            Err(Error::TransferFailed)
        }
    }

    /// Decides the refund of a buy's upfront payment: the full payment
    /// goes back exactly when the settlement did not succeed.
    pub fn handle_refund(settlement_succeeded: bool, attached_deposit: u128) -> (r: Option<u128>)
        ensures
            r == if settlement_succeeded {
                Option::<u128>::None
            } else {
                Some(attached_deposit)
            },
    {
        if settlement_succeeded {
            None
        } else {
            Some(attached_deposit)
        }
    }

    /// The stable-token value of `near` at `rate` before commission:
    /// the trade size at which the adaptive commission curve is
    /// evaluated.
    pub fn buy_gross(near: u128, rate: ExchangeRate) -> (r: Result<u128, Error>)
        requires
            rate.wf(),
        ensures
            match r {
                Ok(g) => g == gross_spec(near, rate) && gross_spec(near, rate) <= u128::MAX,
                Err(e) => e == Error::Overflow && gross_spec(near, rate) > u128::MAX,
            },
    {
        proof {
            lemma_pow10_value();
            lemma_pow10_le((rate.decimals - TOKEN_DECIMAL) as nat, 38);
            lemma_pow10_pos((rate.decimals - TOKEN_DECIMAL) as nat);
        }
        let divisor = pow10_u128(rate.decimals - TOKEN_DECIMAL);
        match mul_div(near, rate.multiplier, divisor) {
            Some(g) => Ok(g),
            None => Err(Error::Overflow),
        }
    }
}

/// The arithmetic heart of the round-trip bound, on bare integers:
/// `x` base-asset units converted to stable value at rate `m / 10^e`
/// (written with the scaling factor `p = 10^e`), a commission fraction
/// `s` removed on the way in and again on the way out, and the result
/// converted back. The outcome never exceeds the input, and the loss —
/// after multiplying through by `m * d` to stay in integers — is below
/// twice the commission plus one unit of each conversion's rounding.
proof fn lemma_round_trip_core(x: int, m: int, p: int, s: int)
    ensures
        ({
            let d = SPREAD_DENOMINATOR as int;
            let g = x * m / p;
            let n = g * (d - s) / d;
            let v = n * (d - s) / d;
            let b = v * p / m;
            x >= 0 && m > 0 && p > 0 && 0 <= s < d ==> 0 <= b <= x && (x - b) * m * d < 2 * s * x
                * m + 3 * p * d + m * d
        }),
{
    let d = SPREAD_DENOMINATOR as int;
    if x >= 0 && m > 0 && p > 0 && 0 <= s < d {
        let t = d - s;
        let g = x * m / p;
        let n = g * t / d;
        let v = n * t / d;
        let b = v * p / m;
        let xm = x * m;
        vstd::arithmetic::mul::lemma_mul_nonnegative(x, m);
        lemma_fundamental_div_mod(xm, p);
        lemma_mod_division_less_than_divisor(xm, p);
        lemma_div_pos_is_pos(xm, p);
        let r1 = xm % p;
        assert(xm == p * g + r1 && 0 <= r1 < p && g >= 0);

        let gt = g * t;
        vstd::arithmetic::mul::lemma_mul_nonnegative(g, t);
        lemma_fundamental_div_mod(gt, d);
        lemma_mod_division_less_than_divisor(gt, d);
        lemma_div_pos_is_pos(gt, d);
        let r2 = gt % d;
        assert(gt == d * n + r2 && 0 <= r2 < d && n >= 0);

        let nt = n * t;
        vstd::arithmetic::mul::lemma_mul_nonnegative(n, t);
        lemma_fundamental_div_mod(nt, d);
        lemma_mod_division_less_than_divisor(nt, d);
        lemma_div_pos_is_pos(nt, d);
        let r3 = nt % d;
        assert(nt == d * v + r3 && 0 <= r3 < d && v >= 0);

        let vp = v * p;
        vstd::arithmetic::mul::lemma_mul_nonnegative(v, p);
        lemma_fundamental_div_mod(vp, m);
        lemma_mod_division_less_than_divisor(vp, m);
        lemma_div_pos_is_pos(vp, m);
        let r4 = vp % m;
        assert(vp == m * b + r4 && 0 <= r4 < m && b >= 0);

        // nothing ever grows: each stage stays below the one before
        assert(n <= g) by (nonlinear_arith)
            requires
                g * t == d * n + r2,
                0 <= r2,
                0 < t <= d,
                g >= 0,
                n >= 0,
        ;
        assert(v <= n) by (nonlinear_arith)
            requires
                n * t == d * v + r3,
                0 <= r3,
                0 < t <= d,
                n >= 0,
                v >= 0,
        ;
        assert(b <= x) by (nonlinear_arith)
            requires
                v * p == m * b + r4,
                0 <= r4,
                x * m == p * g + r1,
                0 <= r1,
                v <= n <= g,
                m > 0,
                p > 0,
                v >= 0,
                b >= 0,
                x >= 0,
        ;

        // the loss, with every division replaced by its decomposition
        assert(b * m * d * d > x * m * t * t - 3 * p * d * d - m * d * d) by (nonlinear_arith)
            requires
                x * m == p * g + r1 && 0 <= r1 < p,
                g * t == d * n + r2 && 0 <= r2 < d,
                n * t == d * v + r3 && 0 <= r3 < d,
                v * p == m * b + r4 && 0 <= r4 < m,
                0 < t <= d,
                m > 0 && p > 0 && x >= 0 && g >= 0 && n >= 0 && v >= 0 && b >= 0,
        ;
        assert(x * m * (d * d - t * t) <= 2 * s * d * (x * m)) by (nonlinear_arith)
            requires
                t == d - s,
                0 <= s < d,
                x * m >= 0,
        ;
        assert(x * m * d * d - b * m * d * d < 2 * s * d * (x * m) + 3 * p * d * d + m * d * d)
            by (nonlinear_arith)
            requires
                b * m * d * d > x * m * t * t - 3 * p * d * d - m * d * d,
                x * m * (d * d - t * t) <= 2 * s * d * (x * m),
        ;
        assert((x - b) * m * d * d == x * m * d * d - b * m * d * d) by (nonlinear_arith);
        assert(2 * s * d * (x * m) + 3 * p * d * d + m * d * d == (2 * s * x * m + 3 * p * d + m
            * d) * d) by (nonlinear_arith);
        assert((x - b) * m * d < 2 * s * x * m + 3 * p * d + m * d) by (nonlinear_arith)
            requires
                (x - b) * m * d * d < (2 * s * x * m + 3 * p * d + m * d) * d,
                d > 0,
        ;
    }
}

/// Round trip: selling exactly the stable tokens a buy minted — at the
/// same rate and the same commission fraction — returns at most the
/// base-asset input, and the loss stays below twice the commission
/// fraction of the input plus the rounding granularity of the two rate
/// conversions (divide the stated bound by `multiplier * 10^6`).
pub proof fn lemma_buy_sell_round_trip(near: u128, rate: ExchangeRate, spread: u128)
    requires
        rate.wf(),
        rate.multiplier > 0,
        spread <= MAX_SPREAD,
    ensures
        ({
            let d = SPREAD_DENOMINATOR as int;
            let p = pow10((rate.decimals - TOKEN_DECIMAL) as nat) as int;
            let m = rate.multiplier as int;
            let net = net_after_commission(gross_spec(near, rate), spread);
            let back = sell_deposit_of(net, rate, spread);
            &&& 0 <= back <= near
            &&& (near - back) * m * d < 2 * spread * near * m + 3 * p * d + m * d
        }),
{
    let p = pow10((rate.decimals - TOKEN_DECIMAL) as nat) as int;
    crate::math::lemma_pow10_pos((rate.decimals - TOKEN_DECIMAL) as nat);
    lemma_round_trip_core(near as int, rate.multiplier as int, p, spread as int);
}

/// With a zero slippage band a trade is admitted exactly when the
/// actual multiplier equals the expected one; any deviation makes the
/// finishing functions fail with the slippage error.
pub proof fn lemma_zero_slippage_exact(actual: ExchangeRate, expected: ExpectedRate)
    requires
        expected.slippage == 0,
        actual.decimals == expected.decimals,
    ensures
        slippage_ok(actual, expected) <==> actual.multiplier == expected.multiplier,
{
}

} // verus!
