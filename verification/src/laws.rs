//! What holds of the hub as a whole.

use vstd::prelude::*;

use crate::contract::{new_supply, set_up, setup_error, weights_total};
use crate::decimal::{floor_ratio, portion, Decimal, ONE};
use crate::error::{ContractError, HostResult};
use crate::execute::{
    unbonded, weighted, withdrawals, NewClaim, AFTER_WITHDRAW_INTERMITTENT_REPLY,
    AFTER_WITHDRAW_REPLY,
};
use crate::hub::{filtered_total, matured, pending, Hub, UnbondingEntry};
use crate::migration::OldSupply;
use crate::msg::InstantiateMsg;
use crate::response::{ReplyOn, Response};
use crate::settlement::{due, settled, Course, Situation};
use crate::split::{
    absorbable, absorbed, delegations, limits, moved, moved_total, negated, portions,
    portions_natural, remainder, sum, sum_first, sum_negated, sum_update, topped_up,
    undelegations,
};
use crate::stakes::{
    entries_total, stake_map, stake_map_entries, stake_map_finite, stake_of, stakes_total,
    stakes_total_without_zeros,
};
use crate::state::{beat_bounds, next_beat, Config, Timestamp, NANOS};
use crate::supply::Supply;

verus! {

/// The portions of an amount and the weights they come from: rounding takes less
/// than one unit from each portion.
proof fn portions_bounds(total: int, validators: Seq<(String, Decimal)>)
    requires
        total >= 0,
    ensures
        sum(portions(total, validators)) * ONE <= total * weights_total(validators),
        total * weights_total(validators) <= sum(portions(total, validators)) * ONE
            + validators.len() * (ONE - 1),
    decreases validators.len(),
{
    let all = portions(total, validators);
    let one = ONE as int;
    if validators.len() == 0 {
        assert(sum(all) == 0);
        assert(0 * one == 0 && total * 0 == 0) by (nonlinear_arith);
        assert(validators.len() * (one - 1) == 0) by (nonlinear_arith)
            requires
                validators.len() == 0,
        ;
    } else {
        let front = validators.drop_last();
        portions_bounds(total, front);
        assert(all.drop_last() =~= portions(total, front));
        let w = validators.last().1.atomics as int;
        let rest = weights_total(front);
        let s = sum(portions(total, front));
        let p = all.last();
        let n = front.len() as int;
        assert(p == portion(total, validators.last().1));
        assert(p * one <= total * w <= p * one + (one - 1)) by (nonlinear_arith)
            requires
                p == (total * w) / one,
                one > 0,
        ;
        assert((s + p) * one == s * one + p * one) by (nonlinear_arith);
        assert(total * (rest + w) == total * rest + total * w) by (nonlinear_arith);
        assert((n + 1) * (one - 1) == n * (one - 1) + (one - 1)) by (nonlinear_arith);
    }
}

/// Weights that are one together never hand out more than there is, and what is lost
/// by rounding is less than one unit for each validator.
pub proof fn weights_of_one_share_everything(total: int, validators: Seq<(String, Decimal)>)
    requires
        total >= 0,
        weights_total(validators) == ONE,
    ensures
        validators.len() > 0,
        0 <= remainder(total, validators) < validators.len(),
{
    portions_bounds(total, validators);
    let s = sum(portions(total, validators));
    let one = ONE as int;
    let n = validators.len() as int;
    assert(s <= total) by (nonlinear_arith)
        requires
            s * one <= total * one,
            one > 0,
    ;
    assert(n > 0) by {
        if n == 0 {
            assert(weights_total(validators) == 0);
        }
    }
    assert(total - s < n) by (nonlinear_arith)
        requires
            total * one <= s * one + n * (one - 1),
            n > 0,
            one > 0,
    ;
}

/// What is delegated in all is exactly the surplus.
pub proof fn surplus_is_delegated(total: int, validators: Seq<(String, Decimal)>)
    requires
        validators.len() > 0,
    ensures
        sum(delegations(total, validators)) == total,
{
    let all = portions(total, validators);
    sum_update(all, 0, all[0] + remainder(total, validators));
}

/// Topping up stays within the limits and uses as much of `extra` as they allow.
proof fn absorbed_sum(amounts: Seq<int>, limits: Seq<int>, extra: int)
    requires
        amounts.len() == limits.len(),
        extra >= 0,
        forall|i: int| 0 <= i < amounts.len() ==> #[trigger] amounts[i] <= limits[i],
    ensures
        absorbed(amounts, limits, extra).len() == amounts.len(),
        forall|i: int|
            0 <= i < amounts.len() ==> amounts[i] <= #[trigger] absorbed(amounts, limits, extra)[i]
                <= limits[i],
        sum(amounts) <= sum(limits),
        sum(absorbed(amounts, limits, extra)) == if sum(amounts) + extra <= sum(limits) {
            sum(amounts) + extra
        } else {
            sum(limits)
        },
    decreases amounts.len(),
{
    if amounts.len() > 0 {
        let first = topped_up(amounts[0], extra, limits[0]);
        let left = extra - (first - amounts[0]);
        let rest = amounts.drop_first();
        let caps = limits.drop_first();
        assert(amounts[0] <= limits[0]);
        assert forall|i: int| 0 <= i < rest.len() implies #[trigger] rest[i] <= caps[i] by {
            assert(amounts[i + 1] <= limits[i + 1]);
        }
        absorbed_sum(rest, caps, left);
        sum_first(amounts);
        sum_first(limits);
        let after = absorbed(amounts, limits, extra);
        if extra != 0 {
            let tail = absorbed(rest, caps, left);
            assert(after == seq![first] + tail);
            sum_first(after);
            assert(after.drop_first() =~= tail);
            assert forall|i: int| 0 <= i < amounts.len() implies amounts[i] <= #[trigger] after[i]
                <= limits[i] by {
                if i > 0 {
                    assert(after[i] == tail[i - 1]);
                    assert(rest[i - 1] <= tail[i - 1] <= caps[i - 1]);
                }
            }
        }
    }
}

/// If every validator has its portion of what is missing, no more than its stake is
/// taken from any of them, and all that is missing is raised as soon as their stakes
/// together allow it.
pub proof fn missing_is_raised(
    total: int,
    validators: Seq<(String, Decimal)>,
    stakes: Map<Seq<char>, int>,
)
    requires
        total >= 0,
        weights_total(validators) == ONE,
        forall|i: int|
            0 <= i < validators.len() ==> #[trigger] portions(total, validators)[i] <= limits(
                validators,
                stakes,
            )[i],
    ensures
        undelegations(total, validators, stakes).len() == validators.len(),
        forall|i: int|
            0 <= i < validators.len() ==> 0 <= #[trigger] undelegations(
                total,
                validators,
                stakes,
            )[i] <= limits(validators, stakes)[i],
        sum(undelegations(total, validators, stakes)) == if total <= sum(
            limits(validators, stakes),
        ) {
            total
        } else {
            sum(limits(validators, stakes))
        },
{
    weights_of_one_share_everything(total, validators);
    portions_natural(total, validators);
    let amounts = portions(total, validators);
    let caps = limits(validators, stakes);
    absorbed_sum(amounts, caps, remainder(total, validators));
    assert forall|i: int| 0 <= i < validators.len() implies 0 <= #[trigger] undelegations(
        total,
        validators,
        stakes,
    )[i] <= caps[i] by {
        assert(amounts[i] >= 0);
    }
}

/// Topping up takes nothing away.
pub proof fn absorbed_grows(amounts: Seq<int>, limits: Seq<int>, extra: int)
    requires
        absorbable(amounts, limits, extra),
        extra >= 0,
    ensures
        absorbed(amounts, limits, extra).len() == amounts.len(),
        sum(amounts) <= sum(absorbed(amounts, limits, extra)) <= sum(amounts) + extra,
        forall|i: int|
            0 <= i < amounts.len() ==> amounts[i] <= #[trigger] absorbed(amounts, limits, extra)[i],
    decreases amounts.len(),
{
    if amounts.len() > 0 && extra != 0 {
        let first = topped_up(amounts[0], extra, limits[0]);
        let left = extra - (first - amounts[0]);
        let rest = amounts.drop_first();
        let caps = limits.drop_first();
        absorbed_grows(rest, caps, left);
        let after = absorbed(amounts, limits, extra);
        let tail = absorbed(rest, caps, left);
        assert(after == seq![first] + tail);
        sum_first(amounts);
        sum_first(after);
        assert(after.drop_first() =~= tail);
        assert forall|i: int| 0 <= i < amounts.len() implies amounts[i] <= #[trigger] after[i] by {
            if i > 0 {
                assert(after[i] == tail[i - 1]);
                assert(rest[i - 1] <= tail[i - 1]);
            }
        }
    }
}

/// What is asked for in single payments adds up to the amounts, and no payment is
/// empty.
pub proof fn payments_add_up(validators: Seq<(String, Decimal)>, amounts: Seq<int>)
    requires
        amounts.len() == validators.len(),
        forall|i: int| 0 <= i < amounts.len() ==> 0 <= #[trigger] amounts[i] <= u128::MAX,
    ensures
        entries_total(due(validators, amounts)) == sum(amounts),
        forall|i: int|
            0 <= i < due(validators, amounts).len() ==> #[trigger] due(validators, amounts)[i].1
                != 0,
    decreases validators.len(),
{
    if validators.len() > 0 {
        let front = due(validators.drop_last(), amounts.drop_last());
        assert(0 <= amounts[amounts.len() - 1] <= u128::MAX);
        assert forall|i: int| 0 <= i < amounts.drop_last().len() implies 0
            <= #[trigger] amounts.drop_last()[i] <= u128::MAX by {
            assert(0 <= amounts[i] <= u128::MAX);
        }
        payments_add_up(validators.drop_last(), amounts.drop_last());
        if amounts.last() != 0 {
            let payments = due(validators, amounts);
            assert(payments.drop_last() =~= front);
            assert forall|i: int| 0 <= i < payments.len() implies #[trigger] payments[i].1 != 0 by {
                if i < front.len() {
                    assert(front[i].1 != 0);
                }
            }
        }
    }
}

/// The commission is at most half of the rewards.
pub proof fn commission_is_bounded(situation: Situation)
    requires
        situation.config.wf(),
        situation.rewards() >= 0,
    ensures
        0 <= situation.commission(),
        2 * situation.commission() <= situation.rewards(),
{
    let rewards = situation.rewards();
    let c = situation.config.commission.atomics as int;
    let one = ONE as int;
    assert(2 * ((rewards * c) / one) <= rewards && (rewards * c) / one >= 0) by (nonlinear_arith)
        requires
            rewards >= 0,
            0 <= c,
            2 * c <= one,
            one > 0,
    ;
}

impl Situation {
    /// The tokens at hand once all messages have been executed.
    pub open spec fn balance_after(&self) -> int {
        self.balance - self.commission() - match self.course() {
            Course::Delegate => self.gap(),
            _ => 0,
        }
    }
}

/// A settlement moves stake as it says: the books agree with the stakes afterwards,
/// and what is delegated or released changes what is bonded by exactly that.
pub proof fn settlement_moves_stake(
    before: Hub,
    after: Hub,
    response: Response,
    balance: int,
    now: Timestamp,
)
    requires
        before.wf(),
        before.balanced(),
        balance != 0,
        before.situation(balance, now).defined(),
        settled(before, after, response, balance, now),
    ensures
        after.balanced(),
        before.situation(balance, now).released() >= 0,
        ({
            let s = before.situation(balance, now);
            after.supply.total_bonded == before.supply.total_bonded + match s.course() {
                Course::Delegate => s.gap(),
                _ => -s.released(),
            }
        }),
        after.supply.total_unbonding == before.cleaned_supply(now.secs()).total_unbonding
            + before.situation(balance, now).released(),
{
    let s = before.situation(balance, now);
    stake_map_finite(before.bonded@);
    stake_map_entries(after.bonded@);
    entries_natural(after.bonded@);
    match s.course() {
        Course::Delegate => {
            surplus_is_delegated(s.gap(), s.validators);
            moved_total(s.stakes, s.validators, s.amounts());
            stakes_total_without_zeros(s.stakes_moved());
        },
        Course::Undelegate => {
            let amounts = portions(s.gap(), s.validators);
            let caps = limits(s.validators, s.stakes);
            let extra = remainder(s.gap(), s.validators);
            portions_natural(s.gap(), s.validators);
            absorbed_grows(amounts, caps, extra);
            sum_natural(amounts);
            sum_negated(s.amounts());
            moved_total(s.stakes, s.validators, negated(s.amounts()));
            stakes_total_without_zeros(s.stakes_moved());
        },
        Course::Hold => {
            stakes_total_without_zeros(s.stakes);
        },
    }
}

/// No list of stakes adds up to less than nothing.
proof fn entries_natural(entries: Seq<(String, u128)>)
    ensures
        entries_total(entries) >= 0,
    decreases entries.len(),
{
    if entries.len() > 0 {
        entries_natural(entries.drop_last());
    }
}

/// Numbers that are not negative do not add up to less than nothing.
pub proof fn sum_natural(amounts: Seq<int>)
    requires
        forall|i: int| 0 <= i < amounts.len() ==> #[trigger] amounts[i] >= 0,
    ensures
        sum(amounts) >= 0,
    decreases amounts.len(),
{
    if amounts.len() > 0 {
        assert(amounts[amounts.len() - 1] >= 0);
        sum_natural(amounts.drop_last());
    }
}

/// A settlement costs the holders of shares the commission and nothing else.
pub proof fn settlement_keeps_value(
    before: Hub,
    after: Hub,
    response: Response,
    balance: int,
    now: Timestamp,
)
    requires
        before.wf(),
        before.balanced(),
        balance != 0,
        before.situation(balance, now).defined(),
        settled(before, after, response, balance, now),
    ensures
        after.supply.assets(before.situation(balance, now).balance_after())
            == before.cleaned_supply(now.secs()).assets(balance) - before.situation(
            balance,
            now,
        ).commission(),
        after.supply.issued == before.supply.issued,
        after.supply.claims == before.supply.claims,
{
    settlement_moves_stake(before, after, response, balance, now);
}

/// At least half of the rewards reach the holders of shares: what belongs to them
/// grows by that much over what it was before the rewards were withdrawn, and the
/// price of a share does not fall.
pub proof fn rewards_reach_the_holders(
    before: Hub,
    after: Hub,
    response: Response,
    balance: int,
    now: Timestamp,
)
    requires
        before.wf(),
        before.balanced(),
        balance != 0,
        before.situation(balance, now).defined(),
        settled(before, after, response, balance, now),
        before.cleaned_supply(now.secs()).assets(before.tmp_balance->Some_0 as int) >= 0,
    ensures
        ({
            let s = before.situation(balance, now);
            let cleaned = before.cleaned_supply(now.secs());
            let old_balance = before.tmp_balance->Some_0 as int;
            &&& 2 * (after.supply.assets(s.balance_after()) - cleaned.assets(old_balance))
                >= balance - old_balance
            &&& after.supply.share_price(s.balance_after()) >= cleaned.share_price(old_balance)
        }),
{
    let s = before.situation(balance, now);
    let cleaned = before.cleaned_supply(now.secs());
    let old_balance = before.tmp_balance->Some_0 as int;
    settlement_keeps_value(before, after, response, balance, now);
    commission_is_bounded(s);
    let was = cleaned.assets(old_balance);
    let is = after.supply.assets(s.balance_after());
    let issued = cleaned.issued as int;
    if issued > 0 {
        assert(was * issued <= is * issued) by (nonlinear_arith)
            requires
                was <= is,
                issued > 0,
        ;
        floor_order(was, issued, is, issued);
    }
}

/// A reinvestment that finds nothing bonded pays no commission: there are no rewards.
pub proof fn no_stake_no_commission(hub: Hub, balance: int, now: Timestamp)
    requires
        0 <= balance <= u128::MAX,
    ensures
        hub.epoch_started(balance, now.secs()).situation(balance, now).commission() == 0,
{
    let c = hub.config.commission.atomics as int;
    let one = ONE as int;
    assert((0 * c) / one == 0) by (nonlinear_arith)
        requires
            one > 0,
    ;
}

/// With weights that are one together nothing stands in the way of delegating a
/// surplus, as long as the sums fit.
pub proof fn surplus_can_be_delegated(hub: Hub, balance: int, now: Timestamp)
    requires
        hub.situation(balance, now).course() is Delegate,
        weights_total(hub.stake_info.validators@) == ONE,
        hub.tmp_balance is Some,
        hub.tmp_balance->Some_0 <= balance,
        hub.situation(balance, now).coverage() <= u128::MAX,
        stakes_total(stake_map(hub.bonded@)) + hub.situation(balance, now).gap() <= u128::MAX,
    ensures
        hub.situation(balance, now).defined(),
{
    let s = hub.situation(balance, now);
    weights_of_one_share_everything(s.gap(), s.validators);
    surplus_is_delegated(s.gap(), s.validators);
    stake_map_finite(hub.bonded@);
    moved_total(s.stakes, s.validators, s.amounts());
    stakes_total_without_zeros(s.stakes_moved());
}

/// No validator is listed twice.
pub open spec fn distinct(validators: Seq<(String, Decimal)>) -> bool {
    forall|i: int, j: int|
        0 <= i < j < validators.len() ==> #[trigger] validators[i].0@
            != #[trigger] validators[j].0@
}

/// A validator that is not listed keeps its stake, and one that is listed once is
/// given its amount.
pub proof fn moved_apart(
    stakes: Map<Seq<char>, int>,
    validators: Seq<(String, Decimal)>,
    amounts: Seq<int>,
)
    requires
        distinct(validators),
        amounts.len() == validators.len(),
    ensures
        forall|k: Seq<char>|
            (forall|j: int| 0 <= j < validators.len() ==> #[trigger] validators[j].0@ != k)
                ==> #[trigger] stake_of(moved(stakes, validators, amounts), k) == stake_of(
                stakes,
                k,
            ),
        forall|i: int|
            0 <= i < validators.len() ==> stake_of(
                moved(stakes, validators, amounts),
                #[trigger] validators[i].0@,
            ) == stake_of(stakes, validators[i].0@) + amounts[i],
    decreases validators.len(),
{
    if validators.len() > 0 {
        let front = validators.drop_last();
        let last = validators.len() - 1;
        let address = validators[last].0@;
        let before = moved(stakes, front, amounts.drop_last());
        let after = moved(stakes, validators, amounts);
        assert(forall|i: int| 0 <= i < front.len() ==> front[i] == validators[i]);
        moved_apart(stakes, front, amounts.drop_last());
        assert(forall|j: int| 0 <= j < front.len() ==> #[trigger] front[j].0@ != address);
        assert(stake_of(before, address) == stake_of(stakes, address));
        assert forall|k: Seq<char>|
            (forall|j: int| 0 <= j < validators.len() ==> #[trigger] validators[j].0@ != k)
            implies #[trigger] stake_of(after, k) == stake_of(stakes, k) by {
            assert(validators[last].0@ != k);
            assert(forall|j: int| 0 <= j < front.len() ==> #[trigger] front[j].0@ != k);
            assert(stake_of(before, k) == stake_of(stakes, k));
        }
        assert forall|i: int| 0 <= i < validators.len() implies stake_of(
            after,
            #[trigger] validators[i].0@,
        ) == stake_of(stakes, validators[i].0@) + amounts[i] by {
            if i < last {
                assert(front[i].0@ == validators[i].0@);
                assert(stake_of(before, front[i].0@) == stake_of(stakes, front[i].0@)
                    + amounts.drop_last()[i]);
                assert(validators[i].0@ != validators[last].0@);
            }
        }
    }
}

/// Amounts that are within their limits can be topped up.
proof fn within_limits_absorbable(amounts: Seq<int>, limits: Seq<int>, extra: int)
    requires
        amounts.len() == limits.len(),
        forall|i: int| 0 <= i < amounts.len() ==> #[trigger] amounts[i] <= limits[i],
    ensures
        absorbable(amounts, limits, extra),
    decreases amounts.len(),
{
    if amounts.len() > 0 {
        let rest = amounts.drop_first();
        let caps = limits.drop_first();
        assert(amounts[0] <= limits[0]);
        assert forall|i: int| 0 <= i < rest.len() implies #[trigger] rest[i] <= caps[i] by {
            assert(amounts[i + 1] <= limits[i + 1]);
        }
        let first = topped_up(amounts[0], extra, limits[0]);
        within_limits_absorbable(rest, caps, extra - (first - amounts[0]));
    }
}

/// With weights that are one together nothing stands in the way of undelegating what
/// is missing, as long as every validator has its portion of it and the sums fit.
pub proof fn missing_can_be_undelegated(hub: Hub, balance: int, now: Timestamp)
    requires
        hub.situation(balance, now).course() is Undelegate,
        weights_total(hub.stake_info.validators@) == ONE,
        distinct(hub.stake_info.validators@),
        forall|i: int|
            0 <= i < hub.stake_info.validators@.len() ==> #[trigger] portions(
                hub.situation(balance, now).gap(),
                hub.stake_info.validators@,
            )[i] <= limits(hub.stake_info.validators@, stake_map(hub.bonded@))[i],
        hub.tmp_balance is Some,
        hub.tmp_balance->Some_0 <= balance,
        hub.situation(balance, now).coverage() <= u128::MAX,
        stakes_total(stake_map(hub.bonded@)) <= u128::MAX,
        hub.cleaned_supply(now.secs()).total_unbonding + hub.situation(balance, now).gap()
            <= u128::MAX,
        now.nanos + hub.config.unbond_period * NANOS <= u64::MAX,
    ensures
        hub.situation(balance, now).defined(),
{
    let s = hub.situation(balance, now);
    let amounts = portions(s.gap(), s.validators);
    let caps = limits(s.validators, s.stakes);
    weights_of_one_share_everything(s.gap(), s.validators);
    portions_natural(s.gap(), s.validators);
    within_limits_absorbable(amounts, caps, remainder(s.gap(), s.validators));
    missing_is_raised(s.gap(), s.validators, s.stakes);
    let taken = negated(s.amounts());
    moved_apart(s.stakes, s.validators, taken);
    sum_natural(s.amounts());
    sum_negated(s.amounts());
    stake_map_finite(hub.bonded@);
    moved_total(s.stakes, s.validators, taken);
    stakes_total_without_zeros(s.stakes_moved());
    assert forall|i: int| 0 <= i < s.validators.len() implies s.stakes.contains_key(
        #[trigger] s.validators[i].0@,
    ) && moved(s.stakes, s.validators, taken)[s.validators[i].0@] >= 0 by {
        let address = s.validators[i].0@;
        assert(amounts[i] >= 0 && amounts[i] <= caps[i]);
        assert(s.amounts()[i] <= caps[i]);
        assert(s.stakes.contains_key(address));
        moved_keeps(s.stakes, s.validators, taken, address);
    }
}

/// No validator is taken off the list.
pub proof fn moved_keeps(
    stakes: Map<Seq<char>, int>,
    validators: Seq<(String, Decimal)>,
    amounts: Seq<int>,
    key: Seq<char>,
)
    requires
        stakes.contains_key(key),
    ensures
        moved(stakes, validators, amounts).contains_key(key),
    decreases validators.len(),
{
    if validators.len() > 0 {
        moved_keeps(stakes, validators.drop_last(), amounts.drop_last(), key);
    }
}

/// What is delegated leaves exactly the claims covered: by the tokens at hand and
/// those that are being released. What is undelegated covers no more than the claims.
pub proof fn settlement_covers_claims(
    before: Hub,
    after: Hub,
    response: Response,
    balance: int,
    now: Timestamp,
)
    requires
        before.wf(),
        before.balanced(),
        balance != 0,
        before.situation(balance, now).defined(),
        settled(before, after, response, balance, now),
    ensures
        ({
            let s = before.situation(balance, now);
            let coverage = s.balance_after() + after.supply.total_unbonding;
            match s.course() {
                Course::Delegate => coverage == after.supply.claims,
                Course::Undelegate => s.coverage() <= coverage <= after.supply.claims,
                Course::Hold => coverage == s.coverage() <= after.supply.claims,
            }
        }),
{
    settlement_moves_stake(before, after, response, balance, now);
    let s = before.situation(balance, now);
    if s.course() is Undelegate {
        let amounts = portions(s.gap(), s.validators);
        absorbed_grows(
            amounts,
            limits(s.validators, s.stakes),
            remainder(s.gap(), s.validators),
        );
    }
}

/// Rounding a quotient down leaves a product that is at most the numerator.
pub proof fn floor_within(value: int, numerator: int, denominator: int)
    requires
        denominator > 0,
    ensures
        floor_ratio(value, numerator, denominator) * denominator <= value * numerator,
        value * numerator < (floor_ratio(value, numerator, denominator) + 1) * denominator,
{
    let n = value * numerator;
    assert((n / denominator) * denominator <= n < (n / denominator + 1) * denominator)
        by (nonlinear_arith)
        requires
            denominator > 0,
    ;
}

/// Rounded quotients keep the order of the exact ones.
proof fn floor_order(a: int, b: int, c: int, d: int)
    requires
        b > 0,
        d > 0,
        a * d <= c * b,
        a >= 0,
    ensures
        floor_ratio(a, ONE as int, b) <= floor_ratio(c, ONE as int, d),
{
    let one = ONE as int;
    let p = floor_ratio(a, one, b);
    let q = floor_ratio(c, one, d);
    floor_within(a, one, b);
    floor_within(c, one, d);
    assert(p * (b * d) <= (a * d) * one) by (nonlinear_arith)
        requires
            p * b <= a * one,
            d > 0,
    ;
    assert((a * d) * one <= (c * b) * one) by (nonlinear_arith)
        requires
            a * d <= c * b,
            one > 0,
    ;
    assert((c * b) * one < (q + 1) * (b * d)) by (nonlinear_arith)
        requires
            c * one < (q + 1) * d,
            b > 0,
    ;
    assert(p < q + 1) by (nonlinear_arith)
        requires
            p * (b * d) < (q + 1) * (b * d),
            b > 0,
            d > 0,
    ;
}

/// Shares are never worth more than their part of the assets.
pub proof fn worth_is_a_fair_part(supply: Supply, amount: int, balance: int)
    requires
        supply.solvent(balance),
        0 <= amount <= supply.issued,
    ensures
        0 <= supply.worth(amount, balance),
        supply.worth(amount, balance) * supply.issued <= amount * supply.assets(balance),
        supply.worth(amount, balance) <= supply.assets(balance),
{
    let one = ONE as int;
    let assets = supply.assets(balance);
    let issued = supply.issued as int;
    let price = supply.share_price(balance);
    let worth = supply.worth(amount, balance);
    floor_within(amount, price, one);
    if issued == 0 {
        assert(amount * price == 0) by (nonlinear_arith)
            requires
                amount == 0,
        ;
        assert(worth == 0) by (nonlinear_arith)
            requires
                worth == (amount * price) / one,
                amount * price == 0,
                one > 0,
        ;
        assert(worth * issued == 0 && amount * assets == 0) by (nonlinear_arith)
            requires
                worth == 0,
                amount == 0,
        ;
    } else {
        floor_within(assets, one, issued);
        assert(price >= 0) by (nonlinear_arith)
            requires
                price == (assets * one) / issued,
                assets >= 0,
                one > 0,
                issued > 0,
        ;
        assert(worth >= 0) by (nonlinear_arith)
            requires
                worth == (amount * price) / one,
                amount >= 0,
                price >= 0,
                one > 0,
        ;
        assert((worth * issued) * one <= (amount * assets) * one) by (nonlinear_arith)
            requires
                worth * one <= amount * price,
                price * issued <= assets * one,
                amount >= 0,
                issued > 0,
        ;
        assert(worth * issued <= amount * assets) by (nonlinear_arith)
            requires
                (worth * issued) * one <= (amount * assets) * one,
                one > 0,
        ;
        assert(worth <= assets) by (nonlinear_arith)
            requires
                worth * issued <= amount * assets,
                amount <= issued,
                assets >= 0,
                issued > 0,
        ;
    }
}

/// Leaving the pool takes nothing from those who stay: the pool stays solvent, and
/// the price of a share does not fall.
pub proof fn unbonding_keeps_the_price(supply: Supply, amount: int, balance: int)
    requires
        supply.can_unbond(amount, balance),
        amount >= 0,
    ensures
        supply.unbonded(amount, balance).solvent(balance),
        supply.unbonded(amount, balance).assets(balance) == supply.assets(balance) - supply.worth(
            amount,
            balance,
        ),
        amount < supply.issued ==> supply.unbonded(amount, balance).share_price(balance)
            >= supply.share_price(balance),
{
    worth_is_a_fair_part(supply, amount, balance);
    let assets = supply.assets(balance);
    let issued = supply.issued as int;
    let worth = supply.worth(amount, balance);
    if amount < issued {
        assert(assets * (issued - amount) <= (assets - worth) * issued) by (nonlinear_arith)
            requires
                worth * issued <= amount * assets,
        ;
        floor_order(assets, issued, assets - worth, issued - amount);
    }
}

/// Shares are never sold for less than their part of the assets.
proof fn bought_is_a_fair_part(supply: Supply, paid: int, balance: int)
    requires
        supply.token_priced(balance),
        supply.issued > 0,
        paid >= 0,
    ensures
        0 <= supply.bought(paid, balance),
        supply.bought(paid, balance) * supply.assets(balance) <= paid * supply.issued,
{
    let one = ONE as int;
    let assets = supply.assets(balance);
    let issued = supply.issued as int;
    let price = supply.token_price(balance);
    let bought = supply.bought(paid, balance);
    floor_within(paid, price, one);
    floor_within(issued, one, assets);
    assert(price >= 0) by (nonlinear_arith)
        requires
            price == (issued * one) / assets,
            issued >= 0,
            one > 0,
            assets > 0,
    ;
    assert(bought >= 0) by (nonlinear_arith)
        requires
            bought == (paid * price) / one,
            paid >= 0,
            price >= 0,
            one > 0,
    ;
    assert((bought * assets) * one <= (paid * issued) * one) by (nonlinear_arith)
        requires
            bought * one <= paid * price,
            price * assets <= issued * one,
            paid >= 0,
            assets > 0,
    ;
    assert(bought * assets <= paid * issued) by (nonlinear_arith)
        requires
            (bought * assets) * one <= (paid * issued) * one,
            one > 0,
    ;
}

/// In an empty pool every native token buys one share.
pub proof fn first_shares_cost_one(supply: Supply, paid: int, balance: int)
    requires
        supply.issued == 0,
    ensures
        supply.bought(paid, balance) == paid,
        supply.share_price(balance) == ONE,
{
    let one = ONE as int;
    assert((paid * one) / one == paid) by (nonlinear_arith)
        requires
            one > 0,
    ;
}

/// Joining the pool takes nothing from those who are in it: the price of a share
/// does not fall.
pub proof fn bonding_keeps_the_price(supply: Supply, paid: int, balance: int)
    requires
        supply.can_bond(paid, balance),
        paid >= 0,
    ensures
        supply.bonded(paid, balance).assets(balance + paid) == supply.assets(balance) + paid,
        supply.bonded(paid, balance).share_price(balance + paid) >= supply.share_price(balance),
{
    let assets = supply.assets(balance);
    let issued = supply.issued as int;
    let bought = supply.bought(paid, balance);
    let one = ONE as int;
    if issued == 0 {
        first_shares_cost_one(supply, paid, balance);
        if paid > 0 {
            assert(paid * paid <= (assets + paid) * paid) by (nonlinear_arith)
                requires
                    assets >= 0,
                    paid >= 0,
            ;
            floor_order(paid, paid, assets + paid, paid);
            assert((paid * one) / paid == one) by (nonlinear_arith)
                requires
                    paid > 0,
            ;
        }
    } else {
        bought_is_a_fair_part(supply, paid, balance);
        assert(assets * (issued + bought) <= (assets + paid) * issued) by (nonlinear_arith)
            requires
                bought * assets <= paid * issued,
        ;
        floor_order(assets, issued, assets + paid, issued + bought);
    }
}

/// Whoever joins the pool and leaves it at once gets back no more than was paid,
/// unless the pool had assets but nobody to own them.
pub proof fn round_trip_gains_nothing(supply: Supply, paid: int, balance: int)
    requires
        supply.can_bond(paid, balance),
        supply.bonded(paid, balance).solvent(balance + paid),
        paid >= 0,
        supply.issued != 0 || supply.assets(balance) == 0,
    ensures
        supply.bonded(paid, balance).worth(supply.bought(paid, balance), balance + paid) <= paid,
{
    let assets = supply.assets(balance);
    let issued = supply.issued as int;
    let bought = supply.bought(paid, balance);
    let after = supply.bonded(paid, balance);
    if issued == 0 {
        first_shares_cost_one(supply, paid, balance);
    } else {
        bought_is_a_fair_part(supply, paid, balance);
    }
    worth_is_a_fair_part(after, bought, balance + paid);
    let worth = after.worth(bought, balance + paid);
    if issued + bought > 0 {
        assert(bought * assets <= paid * issued) by {
            if issued == 0 {
                assert(bought * assets == 0 && paid * issued == 0) by (nonlinear_arith)
                    requires
                        assets == 0,
                        issued == 0,
                ;
            }
        }
        assert(worth <= paid) by (nonlinear_arith)
            requires
                worth * (issued + bought) <= bought * (assets + paid),
                bought * assets <= paid * issued,
                issued + bought > 0,
        ;
    }
}

/// The books count exactly the claims that are made, and the shares that are burnt
/// for them.
pub proof fn claims_are_counted(
    before: Hub,
    after: Hub,
    contract_sender: Seq<char>,
    amount: u128,
    sender: HostResult<String>,
    balance: HostResult<u128>,
    now: int,
    r: Result<(Response, NewClaim), ContractError>,
)
    requires
        unbonded(before, after, contract_sender, amount as int, sender, balance, now, r),
        balance is Ok ==> before.can_unbond(amount as int, balance->Ok_0 as int, now),
    ensures
        r is Ok ==> after.supply.claims == before.supply.claims + r->Ok_0.1.amount
            && after.supply.issued == before.supply.issued - amount,
        r is Err ==> after == before,
{
    if balance is Ok {
        worth_is_a_fair_part(before.cleaned_supply(now), amount as int, balance->Ok_0 as int);
    }
}

/// Paying claims changes nothing for the holders of shares.
pub proof fn claims_are_paid_from_claims(supply: Supply, to_send: int, balance: int)
    requires
        0 <= to_send <= supply.claims,
    ensures
        (Supply { claims: (supply.claims - to_send) as u128, ..supply }).assets(balance - to_send)
            == supply.assets(balance),
{
}

/// Undelegating everything changes nothing for the holders of shares, if the chain
/// knows of as much stake as the books do.
pub proof fn emergency_keeps_value(supply: Supply, delegated: int, balance: int)
    requires
        delegated == supply.total_bonded,
        supply.total_unbonding + delegated <= u128::MAX,
    ensures
        (Supply {
            total_bonded: 0,
            total_unbonding: (supply.total_unbonding + delegated) as u128,
            ..supply
        }).assets(balance) == supply.assets(balance),
{
}

/// Stake that has been released counts as before once it has arrived.
pub proof fn released_stake_counts(hub: Hub, balance: int, now: int)
    requires
        hub.wf(),
    ensures
        0 <= matured(hub.unbonding@, now) <= hub.supply.total_unbonding,
        hub.cleaned_supply(now).assets(balance + matured(hub.unbonding@, now))
            == hub.supply.assets(balance),
{
    filtered_total(hub.unbonding@, |e: UnbondingEntry| e.time > now);
}

/// Of what is pending, all that is pending later was pending all along.
pub proof fn pending_later(queue: Seq<UnbondingEntry>, now: int, later: int)
    requires
        now <= later,
    ensures
        pending(pending(queue, now), later) == pending(queue, later),
    decreases queue.len(),
{
    reveal(Seq::filter);
    if queue.len() > 0 {
        let front = queue.drop_last();
        pending_later(front, now, later);
        let kept = pending(front, now);
        if queue.last().time > now {
            kept.lemma_filter_push(queue.last(), |e: UnbondingEntry| e.time > later);
        }
    } else {
        assert(pending(queue, now) =~= queue);
    }
}

/// It makes no difference whether what has been released is struck out at once or
/// later.
pub proof fn cleaning_can_wait(hub: Hub, cleaned: Hub, now: int, later: int)
    requires
        hub.wf(),
        cleaned.is_cleaned(hub, now),
        now <= later,
    ensures
        cleaned.cleaned_supply(later) == hub.cleaned_supply(later),
        pending(cleaned.unbonding@, later) == pending(hub.unbonding@, later),
{
    pending_later(hub.unbonding@, now, later);
    filtered_total(hub.unbonding@, |e: UnbondingEntry| e.time > now);
    filtered_total(hub.unbonding@, |e: UnbondingEntry| e.time > later);
}

/// Epochs keep their rhythm: the next one starts after `now`, within one period, and
/// a whole number of periods after the last start.
pub proof fn epochs_keep_their_rhythm(start: int, period: int, now: int)
    requires
        period > 0,
        start <= now,
    ensures
        now < next_beat(start, period, now) <= now + period,
        (next_beat(start, period, now) - start) % period == 0,
{
    beat_bounds(start, period, now);
    let n = (now - start) / period + 1;
    assert((n * period) % period == 0) by (nonlinear_arith)
        requires
            period > 0,
    ;
}

/// After a reinvestment the next one has to wait for the next epoch, which starts
/// within one period.
pub proof fn one_reinvestment_per_epoch(hub: Hub, balance: int, now: Timestamp)
    requires
        hub.wf(),
        hub.config.next_epoch <= now.secs(),
    ensures
        now.secs() < hub.epoch_started(balance, now.secs()).config.next_epoch,
        hub.epoch_started(balance, now.secs()).config.next_epoch <= now.secs()
            + hub.config.epoch_period,
        (hub.epoch_started(balance, now.secs()).config.next_epoch - hub.config.next_epoch)
            % hub.config.epoch_period as int == 0,
{
    epochs_keep_their_rhythm(
        hub.config.next_epoch as int,
        hub.config.epoch_period as int,
        now.secs(),
    );
}

/// Stake is released at `times`, one release after the other, with `configs` as the
/// settings before each of them.
pub open spec fn releases(configs: Seq<Config>, times: Seq<int>) -> bool {
    &&& configs.len() == times.len()
    &&& forall|k: int|
        0 <= k < times.len() ==> {
            &&& #[trigger] configs[k].wf()
            &&& configs[k].next_unbond <= times[k]
            &&& times[k] + configs[k].unbond_interval() <= u64::MAX
        }
    &&& forall|k: int, m: int|
        0 <= k && m == k + 1 && m < times.len() ==> {
            let granted = (#[trigger] configs[k]).after_unbond(times[k]);
            &&& (#[trigger] configs[m]).next_unbond == granted.next_unbond
            &&& configs[m].unbond_period == granted.unbond_period
            &&& configs[m].max_concurrent_unbondings == granted.max_concurrent_unbondings
        }
}

/// The time between releases adds up.
proof fn releases_are_apart(configs: Seq<Config>, times: Seq<int>, i: int, j: int)
    requires
        releases(configs, times),
        0 <= i <= j < times.len(),
    ensures
        configs[j].unbond_period == configs[i].unbond_period,
        configs[j].max_concurrent_unbondings == configs[i].max_concurrent_unbondings,
        times[i] + (j - i) * configs[i].unbond_interval() <= times[j],
    decreases j - i,
{
    let interval = configs[i].unbond_interval();
    if i == j {
        assert((j - i) * interval == 0) by (nonlinear_arith)
            requires
                i == j,
        ;
    } else {
        releases_are_apart(configs, times, i, j - 1);
        assert(configs[j - 1].wf() && configs[j].wf());
        interval_natural(configs[j - 1]);
        assert(times[j - 1] >= configs[j - 1].next_unbond);
        assert(configs[j].next_unbond == configs[j - 1].after_unbond(times[j - 1]).next_unbond);
        assert((j - i) * interval == (j - 1 - i) * interval + interval) by (nonlinear_arith);
    }
}

/// The time between two releases, as often as there may be releases, is at least an
/// unbonding period.
pub proof fn interval_natural(config: Config)
    requires
        config.wf(),
    ensures
        config.unbond_interval() >= 0,
        config.max_concurrent_unbondings * config.unbond_interval() >= config.unbond_period,
{
    let p = config.unbond_period as int;
    let m = config.max_concurrent_unbondings as int;
    let interval = config.unbond_interval();
    assert(interval >= 0 && m * interval >= p) by (nonlinear_arith)
        requires
            interval == (p + m - 1) / m,
            p >= 0,
            m > 0,
    ;
}

/// No more than `max_concurrent_unbondings` releases are under way at a time: when
/// as many more have begun, the first one is over.
pub proof fn releases_are_throttled(configs: Seq<Config>, times: Seq<int>, i: int, j: int)
    requires
        releases(configs, times),
        0 <= i,
        i + configs[i].max_concurrent_unbondings <= j < times.len(),
    ensures
        times[i] + configs[i].unbond_period <= times[j],
{
    releases_are_apart(configs, times, i, j);
    assert(configs[i].wf());
    interval_natural(configs[i]);
    let m = configs[i].max_concurrent_unbondings as int;
    let interval = configs[i].unbond_interval();
    assert(m * interval <= (j - i) * interval) by (nonlinear_arith)
        requires
            m <= j - i,
            interval >= 0,
    ;
}

/// A claim is not paid before stake that is released for it at the first opportunity
/// has arrived.
pub proof fn claims_wait_for_stake(hub: Hub, situation: Situation)
    requires
        situation.config.unbond_period == hub.config.unbond_period,
        situation.now.secs() <= hub.config.next_epoch || situation.now.secs()
            <= hub.config.next_unbond,
    ensures
        situation.release_time() <= hub.claim_time(),
        hub.claim_time() >= hub.config.next_epoch + hub.config.unbond_period,
{
}

/// The discount leaves more than half of the price, but for rounding, and never adds
/// to it.
pub proof fn discount_is_bounded(hub: Hub, rate: Decimal)
    requires
        hub.config.wf(),
    ensures
        hub.discounted(rate).atomics <= rate.atomics,
        2 * hub.discounted(rate).atomics + 1 >= rate.atomics,
{
    let price = rate.atomics as int;
    let part = ONE - hub.config.liquidity_discount.atomics;
    let one = ONE as int;
    assert(0 <= (price * part) / one <= price) by (nonlinear_arith)
        requires
            price >= 0,
            0 <= part <= one,
            one > 0,
    ;
    assert(2 * ((price * part) / one) + 1 >= price) by (nonlinear_arith)
        requires
            price >= 0,
            one < 2 * part,
            one > 0,
    ;
}

/// A filter keeps everything that it does not reject.
proof fn some_weight_is_kept(validators: Seq<(String, Decimal)>)
    ensures
        weights_total(validators) > 0 ==> weighted(validators).len() > 0,
    decreases validators.len(),
{
    reveal(Seq::filter);
    if validators.len() > 0 {
        some_weight_is_kept(validators.drop_last());
    }
}

/// A reinvestment goes on: with weights that are one together there is a last
/// withdrawal of rewards. The hub is called back after it in any case, and after no
/// other withdrawal that succeeds.
pub proof fn reinvestment_goes_on(validators: Seq<(String, Decimal)>)
    requires
        weights_total(validators) == ONE,
    ensures
        withdrawals(weighted(validators)).len() > 0,
        withdrawals(weighted(validators)).last().id == AFTER_WITHDRAW_REPLY,
        withdrawals(weighted(validators)).last().reply_on == ReplyOn::Always,
        forall|i: int|
            0 <= i < withdrawals(weighted(validators)).len() - 1 ==> {
                let msg = #[trigger] withdrawals(weighted(validators))[i];
                msg.id == AFTER_WITHDRAW_INTERMITTENT_REPLY && msg.reply_on == ReplyOn::Error
            },
{
    some_weight_is_kept(validators);
}

/// A hub that has been set up can be worked with, its books agree with its stakes, a
/// share costs one native token, and any surplus can be handed out by its weights.
pub proof fn setup_is_sound(
    hub: Hub,
    msg: InstantiateMsg,
    bond_denom: String,
    treasury: String,
    owner: String,
    now: Timestamp,
    total: int,
)
    requires
        setup_error(msg) is None,
        set_up(hub, msg, bond_denom, treasury, owner, now.secs()),
        total >= 0,
    ensures
        hub.wf(),
        hub.balanced(),
        hub.rate(total, now.secs()).atomics == ONE,
        hub.supply.bought(total, total) == total,
        hub.stake_info.validators@.len() > 0,
        sum(portions(total, hub.stake_info.validators@)) <= total,
        now.secs() < hub.config.next_epoch,
{
    assert(hub.bonded@ =~= Seq::empty());
    assert(stake_map(hub.bonded@).dom() =~= Set::empty());
    first_shares_cost_one(hub.supply, total, total);
    weights_of_one_share_everything(total, hub.stake_info.validators@);
}

/// Bringing the books up to date keeps what the shares are worth.
pub proof fn migration_keeps_value(old_supply: OldSupply, balance: int)
    ensures
        new_supply(old_supply).assets(balance) == balance + old_supply.total_bonded
            + old_supply.total_unbonding - old_supply.claims,
        new_supply(old_supply).issued == old_supply.issued,
{
}

} // verus!
