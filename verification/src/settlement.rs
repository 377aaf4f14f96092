//! How the tokens at hand are set against the claims: what is due to the treasury,
//! what is delegated, and what has to be undelegated.

use vstd::prelude::*;

use crate::decimal::{portion, Decimal};
use crate::hub::{pending, Hub, Unbonding, UnbondingEntry};
use crate::response::{plain, Coin, CosmosMsg, Response, SubMsg};
use crate::split::{
    absorbable, covered, delegations, limits, moved, negated, portions, remainder, sum,
    undelegations,
};
use crate::stakes::{ascending, stake_map, stakes_total, without_zeros};
use crate::state::{Config, Timestamp, NANOS};
use crate::supply::Supply;

verus! {

/// What is done with the stake.
#[derive(Clone, Copy, Debug, PartialEq, Eq, Structural)]
pub enum Course {
    /// There is more than the claims need: the surplus is delegated.
    Delegate,
    /// The claims are not covered, and stake may be released: what is missing is
    /// undelegated.
    Undelegate,
    /// Nothing.
    Hold,
}

/// Everything that a settlement depends on.
pub struct Situation {
    pub config: Config,
    /// The books without what has been released.
    pub supply: Supply,
    pub validators: Seq<(String, Decimal)>,
    pub stakes: Map<Seq<char>, int>,
    /// The tokens at hand.
    pub balance: int,
    /// The tokens at hand before the rewards were withdrawn, if they have been noted.
    pub balance_before: Option<int>,
    pub now: Timestamp,
}

impl Hub {
    /// What a settlement depends on when the hub has `balance` at hand.
    pub open spec fn situation(&self, balance: int, now: Timestamp) -> Situation {
        Situation {
            config: self.config,
            supply: self.cleaned_supply(now.secs()),
            validators: self.stake_info.validators@,
            stakes: stake_map(self.bonded@),
            balance,
            balance_before: match self.tmp_balance {
                Some(balance_before) => Some(balance_before as int),
                None => None,
            },
            now,
        }
    }
}

impl Situation {
    /// The rewards cannot be told from what was at hand before: that has not been noted.
    pub open spec fn unnoted(&self) -> bool {
        self.balance != 0 && self.balance_before is None
    }

    /// The rewards that have been withdrawn.
    pub open spec fn rewards(&self) -> int {
        self.balance - self.balance_before->Some_0
    }

    /// What the treasury gets of the rewards.
    pub open spec fn commission(&self) -> int {
        portion(self.rewards(), self.config.commission)
    }

    /// What is there, or will be, to pay claims from.
    pub open spec fn coverage(&self) -> int {
        self.balance - self.commission() + self.supply.total_unbonding
    }

    /// What is done with the stake.
    pub open spec fn course(&self) -> Course {
        if self.coverage() > self.supply.claims {
            Course::Delegate
        } else if self.coverage() < self.supply.claims && self.now.secs()
            >= self.config.next_unbond {
            Course::Undelegate
        } else {
            Course::Hold
        }
    }

    /// What is to be delegated or undelegated in all.
    pub open spec fn gap(&self) -> int {
        match self.course() {
            Course::Delegate => self.coverage() - self.supply.claims,
            Course::Undelegate => self.supply.claims - self.coverage(),
            Course::Hold => 0,
        }
    }

    /// What is delegated to, or undelegated from, each validator in the list.
    pub open spec fn amounts(&self) -> Seq<int> {
        match self.course() {
            Course::Delegate => delegations(self.gap(), self.validators),
            Course::Undelegate => undelegations(self.gap(), self.validators, self.stakes),
            Course::Hold => Seq::empty(),
        }
    }

    /// The stakes afterwards, empty ones included.
    pub open spec fn stakes_moved(&self) -> Map<Seq<char>, int> {
        match self.course() {
            Course::Delegate => moved(self.stakes, self.validators, self.amounts()),
            Course::Undelegate => moved(self.stakes, self.validators, negated(self.amounts())),
            Course::Hold => self.stakes,
        }
    }

    /// The stakes afterwards.
    pub open spec fn stakes_after(&self) -> Map<Seq<char>, int> {
        without_zeros(self.stakes_moved())
    }

    /// What is newly being released.
    pub open spec fn released(&self) -> int {
        match self.course() {
            Course::Undelegate => sum(self.amounts()),
            _ => 0,
        }
    }

    /// The books afterwards.
    pub open spec fn supply_after(&self) -> Supply {
        Supply {
            total_bonded: stakes_total(self.stakes_after()) as u128,
            total_unbonding: (self.supply.total_unbonding + self.released()) as u128,
            ..self.supply
        }
    }

    /// The settings afterwards.
    pub open spec fn config_after(&self) -> Config {
        match self.course() {
            Course::Undelegate => self.config.after_unbond(self.now.secs()),
            _ => self.config,
        }
    }

    /// The second at which the chain releases what is undelegated.
    pub open spec fn release_time(&self) -> int {
        self.now.secs() + self.config.unbond_period
    }

    /// What is newly being released, by validator.
    pub open spec fn unbondings(&self) -> Seq<Unbonding> {
        as_unbondings(due(self.validators, self.amounts()))
    }

    /// What the chain is asked to do.
    pub open spec fn messages(&self) -> Seq<SubMsg> {
        let denom = self.supply.bond_denom;
        commission_messages(self.config.treasury, denom, self.commission()) + match self.course() {
            Course::Delegate => delegate_messages(due(self.validators, self.amounts()), denom),
            Course::Undelegate => undelegate_messages(
                due(self.validators, self.amounts()),
                denom,
            ),
            Course::Hold => Seq::empty(),
        }
    }

    /// Nothing stands in the way of the settlement: the rewards are known, there are
    /// validators to delegate to, their weights are not more than one together, the
    /// validators have the stake that is to be released, and every sum fits.
    pub open spec fn defined(&self) -> bool {
        self.balance == 0 || {
            &&& self.balance_before is Some
            &&& self.rewards() >= 0
            &&& self.coverage() <= u128::MAX
            &&& stakes_total(self.stakes_after()) <= u128::MAX
            &&& match self.course() {
                Course::Delegate => {
                    &&& self.validators.len() > 0
                    &&& sum(portions(self.gap(), self.validators)) <= self.gap()
                },
                Course::Undelegate => {
                    &&& sum(portions(self.gap(), self.validators)) <= self.gap()
                    &&& absorbable(
                        portions(self.gap(), self.validators),
                        limits(self.validators, self.stakes),
                        remainder(self.gap(), self.validators),
                    )
                    &&& covered(self.stakes, self.validators, self.amounts())
                    &&& self.supply.total_unbonding + self.released() <= u128::MAX
                    &&& self.now.nanos + self.config.unbond_period * NANOS <= u64::MAX
                },
                Course::Hold => true,
            }
        }
    }
}

/// The validators in the list that have an amount other than zero, each with it.
pub open spec fn due(validators: Seq<(String, Decimal)>, amounts: Seq<int>) -> Seq<(String, u128)>
    decreases validators.len(),
{
    if validators.len() == 0 {
        Seq::empty()
    } else {
        let front = due(validators.drop_last(), amounts.drop_last());
        if amounts.last() == 0 {
            front
        } else {
            front.push((validators.last().0, amounts.last() as u128))
        }
    }
}

/// The payments as stake that is being released.
pub open spec fn as_unbondings(payments: Seq<(String, u128)>) -> Seq<Unbonding> {
    payments.map_values(|p: (String, u128)| Unbonding { validator: p.0, amount: p.1 })
}

/// The transfer of the commission, if there is any.
pub open spec fn commission_messages(treasury: String, denom: String, commission: int) -> Seq<
    SubMsg,
> {
    if commission == 0 {
        Seq::empty()
    } else {
        seq![
            plain(
                CosmosMsg::Send {
                    to_address: treasury,
                    amount: Coin { denom, amount: commission as u128 },
                },
            ),
        ]
    }
}

/// One delegation for each payment.
pub open spec fn delegate_messages(payments: Seq<(String, u128)>, denom: String) -> Seq<SubMsg> {
    payments.map_values(
        |p: (String, u128)|
            plain(
                CosmosMsg::Delegate { validator: p.0, amount: Coin { denom, amount: p.1 } },
            ),
    )
}

/// One undelegation for each payment.
pub open spec fn undelegate_messages(payments: Seq<(String, u128)>, denom: String) -> Seq<SubMsg> {
    payments.map_values(
        |p: (String, u128)|
            plain(
                CosmosMsg::Undelegate { validator: p.0, amount: Coin { denom, amount: p.1 } },
            ),
    )
}

/// `queue` is `before` with `unbondings` as what is released at `time`.
pub open spec fn queued(
    queue: Seq<UnbondingEntry>,
    before: Seq<UnbondingEntry>,
    time: int,
    unbondings: Seq<Unbonding>,
) -> bool {
    &&& queue.len() > 0
    &&& queue.drop_last() == before.filter(|e: UnbondingEntry| e.time != time)
    &&& queue.last().time == time
    &&& queue.last().unbondings@ == unbondings
}

/// `after` is the state, and `response` the answer, when `before` has been settled.
pub open spec fn settled(
    before: Hub,
    after: Hub,
    response: Response,
    balance: int,
    now: Timestamp,
) -> bool {
    let s = before.situation(balance, now);
    if balance == 0 {
        after.is_cleaned(before, now.secs()) && response.is_empty()
    } else {
        &&& after.config == s.config_after()
        &&& after.supply == s.supply_after()
        &&& after.stake_info == before.stake_info
        &&& ascending(after.bonded@)
        &&& stake_map(after.bonded@) == s.stakes_after()
        &&& match s.course() {
            Course::Undelegate => queued(
                after.unbonding@,
                pending(before.unbonding@, now.secs()),
                s.release_time(),
                s.unbondings(),
            ),
            _ => after.unbonding@ == pending(before.unbonding@, now.secs()),
        }
        &&& after.tmp_balance == before.tmp_balance
        &&& response.messages@ == s.messages()
        &&& response.attributes@.len() == 0
    }
}

} // verus!
