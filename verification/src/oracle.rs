//! Price cache anchored to an external oracle.
//!
//! The cache holds the last fetched exchange-rate snapshot together
//! with a freshness window. A read either reuses the cached snapshot
//! (when still fresh) or asks the caller to perform an asynchronous
//! fetch; a completed fetch is validated against its own freshness
//! window before it replaces the cache, so data that is already stale
//! on arrival never enters it.

use crate::error::Error;
use crate::{MAX_RATE_DECIMALS, TOKEN_DECIMAL};
use vstd::prelude::*;

verus! {

/// One exchange-rate snapshot: `multiplier / 10^decimals` stable-token
/// units per base-asset unit, valid until `timestamp + recency_duration`.
#[derive(Clone, Copy, Debug, PartialEq, Eq, Structural)]
pub struct ExchangeRate {
    pub multiplier: u128,
    pub decimals: u8,
    pub timestamp: u64,
    pub recency_duration: u64,
}

/// Raw payload of a completed price fetch, as plain values.
#[derive(Clone, Copy, Debug, PartialEq, Eq, Structural)]
pub struct PriceData {
    pub multiplier: u128,
    pub decimals: u8,
    pub timestamp: u64,
    pub recency_duration: u64,
}

/// Result of a cache read: a fresh snapshot, or the instruction to
/// fetch one from the external price source.
#[derive(Clone, Copy, Debug, PartialEq, Eq, Structural)]
pub enum RateOrPending {
    Ready(ExchangeRate),
    Pending,
}

impl ExchangeRate {
    /// The rate's exponent stays in the band the conversion arithmetic accepts.
    pub open spec fn wf(&self) -> bool {
        TOKEN_DECIMAL <= self.decimals <= MAX_RATE_DECIMALS
    }

    /// The absolute instant after which the snapshot must not be trusted.
    pub open spec fn expiry(&self) -> int {
        self.timestamp + self.recency_duration
    }

    /// A rate is fresh exactly while `now` lies before its expiry.
    pub open spec fn fresh(&self, now: u64) -> bool {
        (now as int) < self.expiry()
    }

    pub fn new(multiplier: u128, decimals: u8, timestamp: u64, recency_duration: u64) -> (r: Self)
        requires
            TOKEN_DECIMAL <= decimals <= MAX_RATE_DECIMALS,
        ensures
            r == (ExchangeRate { multiplier, decimals, timestamp, recency_duration }),
            r.wf(),
    {
        ExchangeRate { multiplier, decimals, timestamp, recency_duration }
    }

    pub fn multiplier(&self) -> (r: u128)
        ensures
            r == self.multiplier,
    {
        self.multiplier
    }

    pub fn decimals(&self) -> (r: u8)
        ensures
            r == self.decimals,
    {
        self.decimals
    }

    pub fn is_fresh(&self, now: u64) -> (b: bool)
        ensures
            b == self.fresh(now),
    {
        (now as u128) < (self.timestamp as u128) + (self.recency_duration as u128)
    }

    /// The reference rate of the test suite, valid for a second from `now`.
    pub fn test_fresh_rate(now: u64) -> (r: Self)
        requires
            now + 1_000_000_000 <= u64::MAX,
        ensures
            r.multiplier == 111_439,
            r.decimals == 28,
            r.timestamp == now,
            r.recency_duration == now + 1_000_000_000,
            r.wf(),
    {
        ExchangeRate {
            multiplier: 111_439,
            decimals: 28,
            timestamp: now,
            recency_duration: now + 1_000_000_000,
        }
    }

    /// The reference rate of the test suite with an elapsed window at time zero.
    pub fn test_old_rate(now: u64) -> (r: Self)
        ensures
            r.multiplier == 111_439,
            r.decimals == 28,
            r.timestamp == now,
            r.recency_duration == now,
            r.wf(),
    {
        ExchangeRate { multiplier: 111_439, decimals: 28, timestamp: now, recency_duration: now }
    }
}

/// The cache itself: empty until the first successful fetch, then
/// replaced wholesale by each later one, never merged or averaged.
#[derive(Clone, Copy, Debug)]
pub struct Oracle {
    pub last_report: Option<ExchangeRate>,
}

impl Default for Oracle {
    fn default() -> (r: Self)
        ensures
            r.last_report.is_none(),
    {
        Oracle { last_report: None }
    }
}

impl Oracle {
    /// Every snapshot the cache may hold is well-formed.
    pub open spec fn wf(&self) -> bool {
        match self.last_report {
            Some(rate) => rate.wf(),
            None => true,
        }
    }

    /// What a cache read yields at instant `now`.
    pub open spec fn read_spec(&self, now: u64) -> RateOrPending {
        match self.last_report {
            Some(rate) => if rate.fresh(now) {
                RateOrPending::Ready(rate)
            } else {
                RateOrPending::Pending
            },
            None => RateOrPending::Pending,
        }
    }

    pub fn set_exchange_rate(&mut self, exchange_rate: ExchangeRate)
        requires
            exchange_rate.wf(),
        ensures
            final(self).last_report == Some(exchange_rate),
    {
        self.last_report = Some(exchange_rate);
    }

    /// Reuses the cached snapshot while it is fresh; otherwise asks the
    /// caller to fetch price data from the external source.
    pub fn get_exchange_rate(&self, now: u64) -> (r: RateOrPending)
        ensures
            r == self.read_spec(now),
            match r {
                RateOrPending::Ready(rate) => self.wf() ==> rate.wf() && rate.fresh(now),
                RateOrPending::Pending => true,
            },
    {
        match &self.last_report {
            Some(price) => {
                if price.is_fresh(now) {
                    RateOrPending::Ready(*price)
                } else {
                    RateOrPending::Pending
                }
            },
            None => RateOrPending::Pending,
        }
    }

    /// Validates a completed fetch: data that has already outlived its
    /// own window when it lands is rejected, anything else replaces the
    /// cached snapshot wholesale.
    pub fn on_fetch_complete(&mut self, price: PriceData, now: u64) -> (r: Result<
        ExchangeRate,
        Error,
    >)
        requires
            TOKEN_DECIMAL <= price.decimals <= MAX_RATE_DECIMALS,
        ensures
            match r {
                Ok(rate) => {
                    &&& (now as int) < price.timestamp + price.recency_duration
                    &&& rate == (ExchangeRate {
                        multiplier: price.multiplier,
                        decimals: price.decimals,
                        timestamp: price.timestamp,
                        recency_duration: price.recency_duration,
                    })
                    &&& rate.wf()
                    &&& rate.fresh(now)
                    &&& final(self).last_report == Some(rate)
                },
                Err(e) => {
                    &&& e == Error::StalePriceFeed
                    &&& (now as int) >= price.timestamp + price.recency_duration
                    &&& *final(self) == *old(self)
                },
            },
    {
        if (now as u128) >= (price.timestamp as u128) + (price.recency_duration as u128) {
            return Err(Error::StalePriceFeed);
        }
        let rate = ExchangeRate {
            multiplier: price.multiplier,
            decimals: price.decimals,
            timestamp: price.timestamp,
            recency_duration: price.recency_duration,
        };
        self.last_report = Some(rate);
        Ok(rate)
    }
}

} // verus!
