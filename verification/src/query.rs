//! What the hub tells about itself.

use vstd::prelude::*;

use crate::decimal::{portion, Decimal, ONE};
use crate::hub::Hub;
use crate::msg::{
    ConfigResponse, ExchangeRateResponse, SupplyInfo, SupplyResponse, TargetValueResponse,
};
use crate::state::{Config, Timestamp};
use crate::supply::Supply;

verus! {

/// The settings, without those that concern the next steps of the hub only.
pub open spec fn config_info(config: Config) -> ConfigResponse {
    ConfigResponse {
        owner: config.owner,
        token_contract: config.token_contract,
        treasury: config.treasury,
        commission: config.commission,
        epoch_period: config.epoch_period,
        unbond_period: config.unbond_period,
    }
}

/// The settings.
pub fn config(settings: &Config) -> (r: ConfigResponse)
    ensures
        r == config_info(*settings),
{
    ConfigResponse {
        owner: settings.owner.clone(),
        token_contract: settings.token_contract.clone(),
        treasury: settings.treasury.clone(),
        commission: settings.commission,
        epoch_period: settings.epoch_period,
        unbond_period: settings.unbond_period,
    }
}

impl Hub {
    /// The price of a share at `now` can be stated, when the hub has `balance` at
    /// hand.
    pub open spec fn priced(&self, balance: int, now: int) -> bool {
        self.cleaned_supply(now).share_priced(balance)
    }

    /// Whether the price of a share at `now` can be stated.
    pub fn price_known(&self, balance: u128, now: Timestamp) -> (r: bool)
        requires
            self.wf(),
        ensures
            r == self.priced(balance as int, now.secs()),
    {
        self.current_supply(now).tokens_per_share(balance).is_some()
    }

    /// The native tokens per share at `now`.
    pub open spec fn rate(&self, balance: int, now: int) -> Decimal {
        Decimal { atomics: self.cleaned_supply(now).share_price(balance) as u128 }
    }

    /// What is left of a price after the discount.
    pub open spec fn discounted(&self, rate: Decimal) -> Decimal {
        let kept = Decimal { atomics: (ONE - self.config.liquidity_discount.atomics) as u128 };
        Decimal { atomics: portion(rate.atomics as int, kept) as u128 }
    }
}

/// The native tokens per share at `now`, when the hub has `balance` at hand.
pub fn exchange_rate(hub: &Hub, balance: u128, now: Timestamp) -> (r: ExchangeRateResponse)
    requires
        hub.wf(),
        hub.priced(balance as int, now.secs()),
    ensures
        r.exchange_rate == hub.rate(balance as int, now.secs()),
{
    match hub.current_supply(now).tokens_per_share(balance) {
        Some(exchange_rate) => ExchangeRateResponse { exchange_rate },
        None => vstd::pervasive::unreached(),
    }
}

/// A part of a price that is at most the whole fits.
proof fn portion_fits(rate: Decimal, kept: Decimal)
    requires
        kept.atomics <= ONE,
    ensures
        0 <= portion(rate.atomics as int, kept) <= rate.atomics,
{
    let price = rate.atomics as int;
    let part = kept.atomics as int;
    let one = ONE as int;
    assert(0 <= (price * part) / one <= price) by (nonlinear_arith)
        requires
            price >= 0,
            0 <= part <= one,
            one > 0,
    ;
}

/// The price of a share at `now` after the discount.
pub fn target_value(hub: &Hub, balance: u128, now: Timestamp) -> (r: TargetValueResponse)
    requires
        hub.wf(),
        hub.priced(balance as int, now.secs()),
    ensures
        r.target_value == hub.discounted(hub.rate(balance as int, now.secs())),
{
    let exchange_rate = exchange_rate(hub, balance, now).exchange_rate;
    let kept = Decimal { atomics: ONE - hub.config.liquidity_discount.atomics };
    proof {
        portion_fits(exchange_rate, kept);
    }
    match exchange_rate.times(kept) {
        Some(target_value) => TargetValueResponse { target_value },
        None => vstd::pervasive::unreached(),
    }
}

/// The books, with what has been released but not been struck out yet.
pub open spec fn supply_info(supply: Supply) -> SupplyInfo {
    SupplyInfo {
        bond_denom: supply.bond_denom,
        issued: supply.issued,
        total_bonded: supply.total_bonded,
        claims: supply.claims,
        total_unbonding: supply.total_unbonding,
    }
}

/// The books.
pub fn supply(books: &Supply) -> (r: SupplyResponse)
    ensures
        r.supply == supply_info(*books),
{
    SupplyResponse {
        supply: SupplyInfo {
            bond_denom: books.bond_denom.clone(),
            issued: books.issued,
            total_bonded: books.total_bonded,
            claims: books.claims,
            total_unbonding: books.total_unbonding,
        },
    }
}

} // verus!
