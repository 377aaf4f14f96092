//! What happens once the rewards have been withdrawn.

use vstd::prelude::*;

use crate::decimal::{portion, Decimal, ONE};
use crate::error::{BasicError, ContractError};
use crate::hub::{
    filtered_once, filtered_total, sum_unbondings, unbondings_total, Hub, Unbonding,
    UnbondingEntry,
};
use crate::response::{Coin, CosmosMsg, Response, SubMsg};
use crate::settlement::{
    as_unbondings, commission_messages, delegate_messages, due, queued, settled,
    undelegate_messages,
};
use crate::split::{
    absorb, absorbable, absorbed, delegations, give, limits, moved_total, numbers, portion_out,
    portions, remainder, sum, take, topped_up, undelegations,
};
use crate::stakes::{
    ascending, collect, drop_zeros, stake_map, stake_map_entries, stake_map_finite,
    stakes_total_without_zeros, sum_entries,
};
use crate::state::{Timestamp, NANOS};

verus! {

/// The commission is never more than the rewards it is taken from.
proof fn commission_within(rewards: int, commission: Decimal)
    requires
        rewards >= 0,
        commission.atomics <= ONE,
    ensures
        0 <= portion(rewards, commission) <= rewards,
{
    let c = commission.atomics as int;
    let one = ONE as int;
    assert(0 <= (rewards * c) / one <= rewards) by (nonlinear_arith)
        requires
            rewards >= 0,
            0 <= c <= one,
            one > 0,
    ;
}

/// Pairs the validators with the amounts that are not zero.
fn payments(validators: &Vec<(String, Decimal)>, amounts: &Vec<u128>) -> (r: Vec<(String, u128)>)
    requires
        amounts@.len() == validators@.len(),
    ensures
        r@ == due(validators@, numbers(amounts@)),
{
    let mut r: Vec<(String, u128)> = Vec::new();
    let mut i: usize = 0;
    let ghost all = numbers(amounts@);
    assert(validators@.take(0) =~= Seq::empty());
    while i < validators.len()
        invariant
            i <= validators@.len(),
            amounts@.len() == validators@.len(),
            all == numbers(amounts@),
            r@ == due(validators@.take(i as int), all.take(i as int)),
        decreases validators@.len() - i,
    {
        proof {
            assert(validators@.take(i + 1).drop_last() =~= validators@.take(i as int));
            assert(all.take(i + 1).drop_last() =~= all.take(i as int));
        }
        if amounts[i] != 0 {
            r.push((validators[i].0.clone(), amounts[i]));
        }
        i += 1;
    }
    proof {
        assert(validators@.take(i as int) =~= validators@);
        assert(all.take(i as int) =~= all);
    }
    r
}

/// Adds one delegation for each payment.
fn add_delegations(response: &mut Response, payments: &Vec<(String, u128)>, denom: &String)
    ensures
        final(response).messages@ == old(response).messages@ + delegate_messages(
            payments@,
            *denom,
        ),
        final(response).attributes == old(response).attributes,
{
    let mut i: usize = 0;
    let ghost all = delegate_messages(payments@, *denom);
    assert(response.messages@ =~= old(response).messages@ + all.take(0));
    while i < payments.len()
        invariant
            i <= payments@.len(),
            all == delegate_messages(payments@, *denom),
            response.messages@ == old(response).messages@ + all.take(i as int),
            response.attributes == old(response).attributes,
        decreases payments@.len() - i,
    {
        response.add_message(
            CosmosMsg::Delegate {
                validator: payments[i].0.clone(),
                amount: Coin { denom: denom.clone(), amount: payments[i].1 },
            },
        );
        assert(response.messages@ =~= old(response).messages@ + all.take(i + 1));
        i += 1;
    }
    assert(all.take(i as int) =~= all);
}

/// Adds one undelegation for each payment.
fn add_undelegations(response: &mut Response, payments: &Vec<(String, u128)>, denom: &String)
    ensures
        final(response).messages@ == old(response).messages@ + undelegate_messages(
            payments@,
            *denom,
        ),
        final(response).attributes == old(response).attributes,
{
    let mut i: usize = 0;
    let ghost all = undelegate_messages(payments@, *denom);
    assert(response.messages@ =~= old(response).messages@ + all.take(0));
    while i < payments.len()
        invariant
            i <= payments@.len(),
            all == undelegate_messages(payments@, *denom),
            response.messages@ == old(response).messages@ + all.take(i as int),
            response.attributes == old(response).attributes,
        decreases payments@.len() - i,
    {
        response.add_message(
            CosmosMsg::Undelegate {
                validator: payments[i].0.clone(),
                amount: Coin { denom: denom.clone(), amount: payments[i].1 },
            },
        );
        assert(response.messages@ =~= old(response).messages@ + all.take(i + 1));
        i += 1;
    }
    assert(all.take(i as int) =~= all);
}

/// Turns payments into stake that is being released.
fn unbondings_of(payments: &Vec<(String, u128)>) -> (r: Vec<Unbonding>)
    ensures
        r@ == as_unbondings(payments@),
{
    let mut r: Vec<Unbonding> = Vec::new();
    let mut i: usize = 0;
    let ghost all = as_unbondings(payments@);
    assert(r@ =~= all.take(0));
    while i < payments.len()
        invariant
            i <= payments@.len(),
            all == as_unbondings(payments@),
            r@ == all.take(i as int),
        decreases payments@.len() - i,
    {
        r.push(Unbonding { validator: payments[i].0.clone(), amount: payments[i].1 });
        assert(r@ =~= all.take(i + 1));
        i += 1;
    }
    assert(all.take(i as int) =~= all);
    r
}

/// Sets what is released at `time`.
fn enqueue(queue: &mut Vec<UnbondingEntry>, time: u64, unbondings: Vec<Unbonding>)
    ensures
        queued(final(queue)@, old(queue)@, time as int, unbondings@),
{
    let ghost before = queue@;
    let ghost keep = |e: UnbondingEntry| e.time != time as int;
    let ghost mut n: int = 0;
    let mut i: usize = 0;
    proof {
        assert(before.take(0) =~= Seq::empty());
        reveal(Seq::filter);
        assert(before.take(0).filter(keep) =~= Seq::empty());
        assert(before.take(0).filter(keep) + before.skip(0) =~= before);
    }
    while i < queue.len()
        invariant
            0 <= n <= before.len(),
            i <= queue@.len(),
            i == before.take(n).filter(keep).len(),
            keep == (|e: UnbondingEntry| e.time != time as int),
            queue@ == before.take(n).filter(keep) + before.skip(n),
        decreases queue@.len() - i,
    {
        proof {
            assert(n < before.len());
            assert(queue@[i as int] == before[n]);
            assert(before.take(n + 1) =~= before.take(n).push(before[n]));
            before.take(n).lemma_filter_push(before[n], keep);
        }
        if queue[i].time == time {
            queue.remove(i);
            assert(queue@ =~= before.take(n + 1).filter(keep) + before.skip(n + 1));
        } else {
            i += 1;
            assert(queue@ =~= before.take(n + 1).filter(keep) + before.skip(n + 1));
        }
        proof {
            n = n + 1;
        }
    }
    proof {
        assert(before.skip(n).len() == 0);
        assert(before.take(n) =~= before);
        assert(queue@ =~= before.filter(keep));
    }
    queue.push(UnbondingEntry { time, unbondings });
    assert(queue@.drop_last() =~= before.filter(keep));
}

/// What the chain is asked to release adds up to the amounts.
pub proof fn unbondings_sum(validators: Seq<(String, Decimal)>, amounts: Seq<int>)
    requires
        amounts.len() == validators.len(),
        forall|i: int| 0 <= i < amounts.len() ==> 0 <= #[trigger] amounts[i] <= u128::MAX,
    ensures
        unbondings_total(as_unbondings(due(validators, amounts))) == sum(amounts),
    decreases validators.len(),
{
    let payments = due(validators, amounts);
    if validators.len() > 0 {
        let front = due(validators.drop_last(), amounts.drop_last());
        assert(0 <= amounts[amounts.len() - 1] <= u128::MAX);
        assert forall|i: int| 0 <= i < amounts.drop_last().len() implies 0
            <= #[trigger] amounts.drop_last()[i] <= u128::MAX by {
            assert(0 <= amounts[i] <= u128::MAX);
        }
        unbondings_sum(validators.drop_last(), amounts.drop_last());
        if amounts.last() != 0 {
            assert(as_unbondings(payments).drop_last() =~= as_unbondings(front));
        }
    }
}

/// Takes what is left of the gap from the first validators that have enough stake.
fn raise(
    missing: u128,
    validators: &Vec<(String, Decimal)>,
    entries: &Vec<(String, u128)>,
) -> (r: Option<Vec<u128>>)
    requires
        ascending(entries@),
    ensures
        r is Some <==> {
            &&& sum(portions(missing as int, validators@)) <= missing
            &&& absorbable(
                portions(missing as int, validators@),
                limits(validators@, stake_map(entries@)),
                remainder(missing as int, validators@),
            )
        },
        r matches Some(amounts) ==> numbers(amounts@) == undelegations(
            missing as int,
            validators@,
            stake_map(entries@),
        ) && amounts@.len() == validators@.len(),
{
    match portion_out(missing, validators) {
        Some((amounts, rest)) => {
            assert(numbers(amounts@).len() == amounts@.len());
            match absorb(amounts, rest, validators, entries) {
                Some(after) => {
                    proof {
                        absorbed_len(
                            portions(missing as int, validators@),
                            limits(validators@, stake_map(entries@)),
                            rest as int,
                        );
                        assert(numbers(after@).len() == after@.len());
                    }
                    Some(after)
                },
                None => None,
            }
        },
        None => None,
    }
}

/// Topping up leaves as many amounts.
proof fn absorbed_len(amounts: Seq<int>, limits: Seq<int>, extra: int)
    ensures
        absorbed(amounts, limits, extra).len() == amounts.len(),
    decreases amounts.len(),
{
    if amounts.len() > 0 && extra != 0 {
        let first = topped_up(amounts[0], extra, limits[0]);
        absorbed_len(amounts.drop_first(), limits.drop_first(), extra - (first - amounts[0]));
    }
}

/// What each validator is given of `surplus`; `None` if there is no validator, or if
/// their weights are more than one together.
fn distribute(surplus: u128, validators: &Vec<(String, Decimal)>) -> (r: Option<Vec<u128>>)
    ensures
        r is Some <==> validators@.len() > 0 && sum(portions(surplus as int, validators@))
            <= surplus,
        r matches Some(amounts) ==> numbers(amounts@) == delegations(surplus as int, validators@)
            && amounts@.len() == validators@.len(),
{
    match portion_out(surplus, validators) {
        Some((portioned, rest)) => {
            let mut amounts = portioned;
            let ghost given = amounts@;
            proof {
                assert(numbers(given).len() == given.len());
            }
            if amounts.len() == 0 {
                return None;
            }
            proof {
                first_within(numbers(given));
                assert(numbers(given)[0] == given[0] as int);
            }
            let first = amounts[0] + rest;
            amounts.set(0, first);
            assert(numbers(amounts@) =~= numbers(given).update(0, first as int));
            Some(amounts)
        },
        None => None,
    }
}

/// The first of some amounts is at most their sum.
proof fn first_within(amounts: Seq<int>)
    requires
        amounts.len() > 0,
        forall|i: int| 0 <= i < amounts.len() ==> #[trigger] amounts[i] >= 0,
    ensures
        amounts[0] <= sum(amounts),
    decreases amounts.len(),
{
    if amounts.len() > 1 {
        first_within(amounts.drop_last());
        assert(amounts[amounts.len() - 1] >= 0);
    } else {
        assert(amounts.drop_last() =~= Seq::empty());
        assert(sum(amounts.drop_last()) == 0);
    }
}

/// Sets the tokens at hand against the claims: pays the commission on the rewards,
/// then delegates the surplus or undelegates what is missing. `None`, with the state
/// as it was, if something stands in the way. It is an error if it has not been noted
/// what was at hand before the rewards came.
pub fn checked_after_withdraw_rewards(hub: &mut Hub, balance: u128, now: Timestamp) -> (r: Result<
    Option<Response>,
    ContractError,
>)
    requires
        old(hub).wf(),
    ensures
        old(hub).situation(balance as int, now).unnoted() ==> r == Err::<
            Option<Response>,
            ContractError,
        >(ContractError::Std(BasicError::NotFound)),
        !old(hub).situation(balance as int, now).unnoted() ==> r is Ok && (r->Ok_0 is Some <==> old(
            hub,
        ).situation(balance as int, now).defined()),
        r matches Ok(Some(response)) ==> settled(
            *old(hub),
            *final(hub),
            response,
            balance as int,
            now,
        ) && final(hub).wf() && (balance != 0 || old(hub).balanced() ==> final(hub).balanced()),
        !(r matches Ok(Some(_))) ==> *final(hub) == *old(hub),
{
    let ghost s = hub.situation(balance as int, now);
    let mut response = Response::new();
    if balance == 0 {
        hub.clean(now);
        return Ok(Some(response));
    }
    let balance_before = match hub.tmp_balance {
        Some(balance_before) => balance_before,
        None => {
            return Err(ContractError::Std(BasicError::NotFound));
        },
    };
    if balance < balance_before {
        return Ok(None);
    }
    let supply = hub.current_supply(now);
    let rewards = balance - balance_before;
    proof {
        commission_within(rewards as int, hub.config.commission);
    }
    let commission = match hub.config.commission.of(rewards) {
        Some(commission) => commission,
        None => {
            return Ok(None);
        },
    };
    if commission != 0 {
        response.add_message(
            CosmosMsg::Send {
                to_address: hub.config.treasury.clone(),
                amount: Coin { denom: supply.bond_denom.clone(), amount: commission },
            },
        );
    }
    let ghost paid = response.messages@;
    assert(paid =~= commission_messages(s.config.treasury, s.supply.bond_denom, s.commission()));
    let coverage = match (balance - commission).checked_add(supply.total_unbonding) {
        Some(coverage) => coverage,
        None => {
            return Ok(None);
        },
    };
    assert(coverage == s.coverage());
    let entries = collect(&hub.bonded);
    let seconds = now.seconds();
    let mut released: u128 = 0;
    let mut unbondings: Option<(u64, Vec<Unbonding>)> = None;
    let moved_entries: Vec<(String, u128)>;
    if coverage > supply.claims {
        let surplus = coverage - supply.claims;
        assert(s.course() is Delegate && surplus == s.gap());
        let amounts = match distribute(surplus, &hub.stake_info.validators) {
            Some(amounts) => amounts,
            None => {
                return Ok(None);
            },
        };
        let payments = payments(&hub.stake_info.validators, &amounts);
        match give(entries, &hub.stake_info.validators, &amounts) {
            Some(after) => {
                moved_entries = after;
            },
            None => {
                proof {
                    stake_map_finite(hub.bonded@);
                    moved_total(s.stakes, s.validators, s.amounts());
                    stakes_total_without_zeros(s.stakes_moved());
                }
                return Ok(None);
            },
        }
        add_delegations(&mut response, &payments, &supply.bond_denom);
    } else if coverage < supply.claims && seconds >= hub.config.next_unbond {
        let missing = supply.claims - coverage;
        assert(s.course() is Undelegate && missing == s.gap());
        let amounts = match raise(missing, &hub.stake_info.validators, &entries) {
            Some(amounts) => amounts,
            None => {
                return Ok(None);
            },
        };
        match take(entries, &hub.stake_info.validators, &amounts) {
            Some(after) => {
                moved_entries = after;
            },
            None => {
                return Ok(None);
            },
        }
        let payments = payments(&hub.stake_info.validators, &amounts);
        let list = unbondings_of(&payments);
        proof {
            assert(forall|i: int|
                0 <= i < amounts@.len() ==> #[trigger] numbers(amounts@)[i] == amounts@[i] as int);
            unbondings_sum(s.validators, s.amounts());
        }
        match sum_unbondings(&list) {
            Some(sum) => {
                released = sum;
            },
            None => {
                return Ok(None);
            },
        }
        if supply.total_unbonding.checked_add(released).is_none() {
            return Ok(None);
        }
        match hub.config.unbond_period.checked_mul(NANOS) {
            Some(nanos) => {
                if now.nanos.checked_add(nanos).is_none() {
                    return Ok(None);
                }
            },
            None => {
                return Ok(None);
            },
        }
        add_undelegations(&mut response, &payments, &supply.bond_denom);
        unbondings = Some((seconds + hub.config.unbond_period, list));
    } else {
        assert(s.course() is Hold);
        moved_entries = entries;
        assert(response.messages@ =~= paid + Seq::<SubMsg>::empty());
    }
    let bonded = drop_zeros(&moved_entries);
    proof {
        stake_map_entries(bonded@);
    }
    let total_bonded = match sum_entries(&bonded) {
        Some(total) => total,
        None => {
            return Ok(None);
        },
    };
    hub.clean(now);
    let ghost cleaned = *hub;
    hub.bonded = bonded;
    hub.supply.total_bonded = total_bonded;
    match unbondings {
        Some((time, list)) => {
            let granted = hub.config.next_unbond_after(now);
            hub.supply.total_unbonding = hub.supply.total_unbonding + released;
            enqueue(&mut hub.unbonding, time, list);
            proof {
                let keep = |e: UnbondingEntry| e.time != time as int;
                filtered_total(cleaned.unbonding@, keep);
                filtered_once(cleaned.unbonding@, keep);
                let rest = cleaned.unbonding@.filter(keep);
                assert forall|i: int, j: int| 0 <= i < j < hub.unbonding@.len() implies (
                #[trigger] hub.unbonding@[i]).time != (#[trigger] hub.unbonding@[j]).time by {
                    assert(hub.unbonding@.drop_last()[i] == rest[i]);
                    if j < rest.len() {
                        assert(hub.unbonding@.drop_last()[j] == rest[j]);
                    }
                }
            }
        },
        None => {},
    }
    Ok(Some(response))
}

/// Sets the tokens at hand against the claims: pays the commission on the rewards,
/// then delegates the surplus or undelegates what is missing. It is an error if it has
/// not been noted what was at hand before the rewards came.
pub fn after_withdraw_rewards(hub: &mut Hub, balance: u128, now: Timestamp) -> (r: Result<
    Response,
    ContractError,
>)
    requires
        old(hub).wf(),
        !old(hub).situation(balance as int, now).unnoted() ==> old(hub).situation(
            balance as int,
            now,
        ).defined(),
    ensures
        old(hub).situation(balance as int, now).unnoted() ==> r == Err::<Response, ContractError>(
            ContractError::Std(BasicError::NotFound),
        ) && *final(hub) == *old(hub),
        !old(hub).situation(balance as int, now).unnoted() ==> {
            &&& r is Ok
            &&& settled(*old(hub), *final(hub), r->Ok_0, balance as int, now)
            &&& final(hub).wf()
            &&& balance != 0 || old(hub).balanced() ==> final(hub).balanced()
        },
{
    match checked_after_withdraw_rewards(hub, balance, now) {
        Ok(Some(response)) => Ok(response),
        Ok(None) => vstd::pervasive::unreached(),
        Err(error) => Err(error),
    }
}

} // verus!
