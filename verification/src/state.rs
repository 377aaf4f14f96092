//! What the hub remembers between two calls.

use vstd::prelude::*;

use crate::decimal::{Decimal, PERCENT};
use crate::error::ContractError;

verus! {

/// The number of nanoseconds in a second.
pub const NANOS: u64 = 1_000_000_000;

/// The shortest epoch and unbonding period, in seconds.
pub const MIN_PERIOD: u64 = 3600;

/// The longest epoch and unbonding period, in seconds.
pub const MAX_PERIOD: u64 = 31_536_000;

/// A point in time, in nanoseconds since the start of 1970.
#[derive(Clone, Copy, Debug, PartialEq, Eq, Structural)]
pub struct Timestamp {
    pub nanos: u64,
}

impl Timestamp {
    /// The full seconds since the start of 1970.
    pub open spec fn secs(&self) -> int {
        self.nanos as int / NANOS as int
    }

    /// The full seconds since the start of 1970.
    pub fn seconds(&self) -> (r: u64)
        ensures
            r == self.secs(),
    {
        self.nanos / NANOS
    }

    /// The time `seconds` after the start of 1970.
    pub fn from_seconds(seconds: u64) -> (r: Timestamp)
        requires
            seconds * NANOS <= u64::MAX,
        ensures
            r.nanos == seconds * NANOS,
    {
        Timestamp { nanos: seconds * NANOS }
    }
}

/// The settings of the hub.
#[derive(Clone, Debug, PartialEq, Eq)]
pub struct Config {
    /// The contract of the token that stands for shares.
    pub token_contract: String,
    /// Receives the commission.
    pub treasury: String,
    /// The part of all rewards that is paid to the treasury.
    pub commission: Decimal,
    /// The time between two reinvestments, in seconds.
    pub epoch_period: u64,
    /// How long the chain takes to release stake, in seconds.
    pub unbond_period: u64,
    /// May change the settings.
    pub owner: String,
    /// The next reinvestment is possible from this second on.
    pub next_epoch: u64,
    /// Stake is next released from this second on.
    pub next_unbond: u64,
    /// How many releases may be under way at a time.
    pub max_concurrent_unbondings: u64,
    /// By how much shares are worth less than the tokens they stand for.
    pub liquidity_discount: Decimal,
}

/// The first point of the rhythm `start`, `start + period`, ... that is after `now`.
pub open spec fn next_beat(start: int, period: int, now: int) -> int {
    start + ((now - start) / period + 1) * period
}

/// `a / b`, rounded up.
pub open spec fn ceil_div(a: int, b: int) -> int {
    (a + b - 1) / b
}

impl Config {
    /// The settings are within their limits.
    pub open spec fn wf(&self) -> bool {
        &&& self.commission.atomics <= 50 * PERCENT
        &&& self.liquidity_discount.atomics < 50 * PERCENT
        &&& MIN_PERIOD <= self.epoch_period <= MAX_PERIOD
        &&& MIN_PERIOD <= self.unbond_period <= MAX_PERIOD
        &&& self.max_concurrent_unbondings != 0
    }

    /// Whether the settings are within their limits.
    pub fn valid(&self) -> (r: bool)
        ensures
            r == self.wf(),
    {
        self.commission.atomics <= 50 * PERCENT && self.liquidity_discount.atomics < 50 * PERCENT
            && self.epoch_period >= MIN_PERIOD && self.epoch_period <= MAX_PERIOD
            && self.unbond_period >= MIN_PERIOD && self.unbond_period <= MAX_PERIOD
            && self.max_concurrent_unbondings != 0
    }

    /// The seconds that lie between two releases of stake, so that no more than
    /// `max_concurrent_unbondings` of them fall into one unbonding period.
    pub open spec fn unbond_interval(&self) -> int {
        ceil_div(self.unbond_period as int, self.max_concurrent_unbondings as int)
    }

    /// The settings once stake has been released at `now`.
    pub open spec fn after_unbond(&self, now: int) -> Config {
        Config { next_unbond: (now + self.unbond_interval()) as u64, ..*self }
    }

    /// Starts the epoch that `now` lies in, if it has not been started yet. The
    /// next one starts when the rhythm of epochs says, however late this one was.
    pub fn next_epoch_after(&mut self, now: Timestamp) -> (r: Result<(), ContractError>)
        requires
            old(self).wf(),
        ensures
            now.secs() < old(self).next_epoch ==> r == Err::<(), ContractError>(
                ContractError::EpochNotReached { next_epoch: old(self).next_epoch },
            ) && *final(self) == *old(self),
            now.secs() >= old(self).next_epoch ==> {
                let next = next_beat(
                    old(self).next_epoch as int,
                    old(self).epoch_period as int,
                    now.secs(),
                );
                &&& r is Ok
                &&& next <= u64::MAX
                &&& *final(self) == Config { next_epoch: next as u64, ..*old(self) }
            },
    {
        let seconds = now.seconds();
        if seconds < self.next_epoch {
            return Err(ContractError::EpochNotReached { next_epoch: self.next_epoch });
        }
        let elapsed = seconds - self.next_epoch;
        let period = self.epoch_period;
        proof {
            beat_bounds(self.next_epoch as int, period as int, seconds as int);
            assert((elapsed / period) * period <= elapsed) by (nonlinear_arith)
                requires
                    period > 0,
            ;
            assert((elapsed / period + 1) * period == (elapsed / period) * period + period)
                by (nonlinear_arith);
        }
        let beats = elapsed / period + 1;
        self.next_epoch = self.next_epoch + beats * period;
        Ok(())
    }

    /// Claims the right to release stake at `now`, which is granted once per
    /// [`Config::unbond_interval`].
    pub fn next_unbond_after(&mut self, now: Timestamp) -> (r: Result<(), ContractError>)
        requires
            old(self).wf(),
        ensures
            now.secs() < old(self).next_unbond ==> r == Err::<(), ContractError>(
                ContractError::UnbondNotReached { next_unbond: old(self).next_unbond },
            ) && *final(self) == *old(self),
            now.secs() >= old(self).next_unbond ==> {
                &&& r is Ok
                &&& now.secs() + old(self).unbond_interval() <= u64::MAX
                &&& *final(self) == old(self).after_unbond(now.secs())
            },
    {
        let seconds = now.seconds();
        if seconds < self.next_unbond {
            return Err(ContractError::UnbondNotReached { next_unbond: self.next_unbond });
        }
        let period = self.unbond_period;
        let count = self.max_concurrent_unbondings;
        let whole = period / count;
        proof {
            assert(ceil_div(period as int, count as int) == whole + if period % count == 0 {
                0int
            } else {
                1int
            }) by (nonlinear_arith)
                requires
                    count > 0,
                    whole == period / count,
            ;
            assert(whole <= period) by (nonlinear_arith)
                requires
                    count > 0,
                    whole == period / count,
            ;
        }
        let interval = if period % count == 0 {
            whole
        } else {
            whole + 1
        };
        self.next_unbond = seconds + interval;
        Ok(())
    }
}

/// The next beat comes within one period after `now`.
pub proof fn beat_bounds(start: int, period: int, now: int)
    requires
        period > 0,
        start <= now,
    ensures
        now < next_beat(start, period, now) <= now + period,
{
    let n = (now - start) / period;
    assert(n * period <= now - start < (n + 1) * period) by (nonlinear_arith)
        requires
            period > 0,
            n == (now - start) / period,
    ;
    assert((n + 1) * period == n * period + period) by (nonlinear_arith);
}

} // verus!
