//! What each call comes to, in terms of what is stored and what comes in. Nothing is
//! said here by way of the definitions that the contracts are written in, but for sums
//! over lists, which [`lists_add_up`] and [`released_stake_adds_up`] pin down.

use vstd::prelude::*;
use vstd::utf8::encode_utf8;

use crate::contract::{
    created_contract, instantiated, migrated, replied, validator_attributes, weights_total,
    Migrated, ReplyFault, ReplyResult, ReplyStep, AFTER_TOKEN_CREATION_REPLY,
};
use crate::decimal::{decimal_text, floor_ratio, portion, Decimal, ONE, PERCENT};
use crate::error::{BasicError, ContractError, HostResult, ParseReplyError, PaymentError};
use crate::execute::{
    all_plain, calls_token, delegations_total, unbonded, undelegate_all, weighted, withdrawals,
    Delegation, NewClaim, AFTER_WITHDRAW_INTERMITTENT_REPLY, AFTER_WITHDRAW_REPLY,
};
use crate::hub::{
    filtered_total, matured, pending, queue_total, unbondings_total, Hub, Unbonding,
    UnbondingEntry,
};
use crate::laws::{
    commission_is_bounded, distinct, epochs_keep_their_rhythm, floor_within,
    interval_natural, moved_apart, settlement_moves_stake, sum_natural, surplus_is_delegated,
    weights_of_one_share_everything,
};
use crate::migration::OldSupply;
use crate::msg::{InstantiateMsg, TokenInitInfo};
use crate::payment::{payment_error, pays};
use crate::query::{config_info, supply_info};
use crate::response::{texts, Attribute, Coin, CosmosMsg, ReplyOn, Response, SubMsg};
use crate::settlement::{due, settled};
use crate::split::{
    absorbable, absorbed, limits, moved, portions, portions_natural, remainder, sum, sum_first,
    topped_up,
};
use crate::stakes::{
    ascending, entries_total, stake_map, stake_map_finite, stake_of, stakes_total,
    stakes_total_without_zeros, without_zeros,
};
use crate::state::{Config, Timestamp, MAX_PERIOD, MIN_PERIOD, NANOS};
use crate::supply::Supply;
use crate::text::digits;

verus! {

/// The units and limits that everything else is told in.
pub proof fn units_are_fixed()
    ensures
        ONE == 1_000_000_000_000_000_000,
        PERCENT == 10_000_000_000_000_000,
        NANOS == 1_000_000_000,
        MIN_PERIOD == 60 * 60,
        MAX_PERIOD == 365 * 24 * 60 * 60,
        AFTER_TOKEN_CREATION_REPLY == 1,
        AFTER_WITHDRAW_REPLY == 2,
        AFTER_WITHDRAW_INTERMITTENT_REPLY == 3,
{
}

/// A quotient is rounded down, by less than one.
pub proof fn quotients_are_rounded_down(value: int, numerator: int, denominator: int)
    requires
        denominator > 0,
    ensures
        floor_ratio(value, numerator, denominator) * denominator <= value * numerator,
        value * numerator < (floor_ratio(value, numerator, denominator) + 1) * denominator,
{
    floor_within(value, numerator, denominator);
}

/// A part of an amount is rounded down, by less than one unit.
pub proof fn portions_are_rounded_down(amount: int, fraction: Decimal)
    ensures
        portion(amount, fraction) * ONE <= amount * fraction.atomics,
        amount * fraction.atomics < (portion(amount, fraction) + 1) * ONE,
{
    floor_within(amount, fraction.atomics as int, ONE as int);
}

/// The seconds of a point in time are its nanoseconds, rounded down.
pub proof fn seconds_are_rounded_down(time: Timestamp)
    ensures
        time.secs() * 1_000_000_000 <= time.nanos,
        time.nanos < (time.secs() + 1) * 1_000_000_000,
{
}

/// The number that a text of decimal digits stands for.
pub open spec fn value_of(text: Seq<char>) -> int
    decreases text.len(),
{
    if text.len() == 0 {
        0
    } else {
        10 * value_of(text.drop_last()) + (text.last() as int - '0' as int)
    }
}

/// Decimal notation can be read back: it consists of digits, without needless zeros at
/// the front, and stands for the number.
pub proof fn digits_can_be_read_back(value: nat)
    ensures
        value_of(digits(value)) == value,
        digits(value).len() > 0,
        forall|i: int|
            0 <= i < digits(value).len() ==> '0' as int <= #[trigger] digits(value)[i] as int
                && digits(value)[i] as int <= '9' as int,
        digits(value).len() > 1 ==> digits(value)[0] != '0',
    decreases value,
{
    let text = digits(value);
    if value < 10 {
        assert(text.drop_last() =~= Seq::empty());
        assert(value_of(text.drop_last()) == 0);
    } else {
        let front = digits(value / 10);
        digits_can_be_read_back(value / 10);
        assert(text.drop_last() =~= front);
        assert forall|i: int| 0 <= i < text.len() implies '0' as int <= #[trigger] text[i] as int
            && text[i] as int <= '9' as int by {
            if i < front.len() {
                assert(text[i] == front[i]);
            }
        }
        if front.len() == 1 {
            assert(value_of(front.drop_last()) == 0) by {
                assert(front.drop_last() =~= Seq::empty());
            }
        }
    }
}

/// Two texts are ordered by the first character in which they differ; a text comes
/// after its own beginnings.
pub proof fn texts_are_ordered_by_their_first_difference(a: Seq<char>, b: Seq<char>, n: int)
    requires
        0 <= n <= a.len(),
        n < b.len(),
        a.take(n) == b.take(n),
        n == a.len() || (a[n] as int) < (b[n] as int),
    ensures
        crate::order::precedes(a, b),
        !crate::order::precedes(b, a),
    decreases n,
{
    if n > 0 {
        assert(a[0] == a.take(n)[0] && b[0] == b.take(n)[0]);
        let x = a.drop_first();
        let y = b.drop_first();
        assert(x.take(n - 1) =~= a.take(n).drop_first());
        assert(y.take(n - 1) =~= b.take(n).drop_first());
        texts_are_ordered_by_their_first_difference(x, y, n - 1);
    }
}

/// One more item changes the sum over a list by its own amount; an empty list adds up
/// to nothing.
pub proof fn lists_add_up(
    stakes: Seq<(String, u128)>,
    stake: (String, u128),
    validators: Seq<(String, Decimal)>,
    validator: (String, Decimal),
    delegations: Seq<Delegation>,
    delegation: Delegation,
    amounts: Seq<int>,
    amount: int,
)
    ensures
        entries_total(Seq::empty()) == 0,
        entries_total(stakes.push(stake)) == entries_total(stakes) + stake.1,
        weights_total(Seq::empty()) == 0,
        weights_total(validators.push(validator)) == weights_total(validators)
            + validator.1.atomics,
        delegations_total(Seq::empty()) == 0,
        delegations_total(delegations.push(delegation)) == delegations_total(delegations)
            + delegation.amount.amount,
        sum(Seq::empty()) == 0,
        sum(amounts.push(amount)) == sum(amounts) + amount,
{
    assert(stakes.push(stake).drop_last() =~= stakes);
    assert(validators.push(validator).drop_last() =~= validators);
    assert(delegations.push(delegation).drop_last() =~= delegations);
    assert(amounts.push(amount).drop_last() =~= amounts);
}

/// Of several stakes of one validator the last one counts.
pub proof fn stakes_are_kept_by_validator(stakes: Seq<(String, u128)>, stake: (String, u128))
    ensures
        forall|k: Seq<char>| stake_of(stake_map(Seq::empty()), k) == 0,
        stake_of(stake_map(stakes.push(stake)), stake.0@) == stake.1,
        forall|k: Seq<char>|
            k != stake.0@ ==> #[trigger] stake_of(stake_map(stakes.push(stake)), k) == stake_of(
                stake_map(stakes),
                k,
            ),
{
    assert(stakes.push(stake).drop_last() =~= stakes);
}

/// What has been released at `now` is what the entries say whose second has come, one
/// after the other; the others stay, in their order.
pub proof fn released_stake_adds_up(
    queue: Seq<UnbondingEntry>,
    entry: UnbondingEntry,
    list: Seq<Unbonding>,
    unbonding: Unbonding,
    now: int,
)
    ensures
        unbondings_total(Seq::empty()) == 0,
        unbondings_total(list.push(unbonding)) == unbondings_total(list) + unbonding.amount,
        queue_total(Seq::empty()) == 0,
        queue_total(queue.push(entry)) == queue_total(queue) + unbondings_total(entry.unbondings@),
        matured(Seq::empty(), now) == 0,
        pending(Seq::empty(), now) == Seq::<UnbondingEntry>::empty(),
        entry.time <= now ==> {
            &&& matured(queue.push(entry), now) == matured(queue, now) + unbondings_total(
                entry.unbondings@,
            )
            &&& pending(queue.push(entry), now) == pending(queue, now)
        },
        entry.time > now ==> {
            &&& matured(queue.push(entry), now) == matured(queue, now)
            &&& pending(queue.push(entry), now) == pending(queue, now).push(entry)
        },
{
    let keep = |e: UnbondingEntry| e.time > now;
    reveal(Seq::filter);
    assert(list.push(unbonding).drop_last() =~= list);
    assert(queue.push(entry).drop_last() =~= queue);
    assert(pending(Seq::empty(), now) =~= Seq::<UnbondingEntry>::empty());
    queue.lemma_filter_push(entry, keep);
    assert(pending(queue, now).push(entry).drop_last() =~= pending(queue, now));
}

/// Cleaning takes exactly what has been released off what is being released, drops
/// the entries whose second has come, and changes nothing else.
pub proof fn cleaning_strikes_out_what_is_released(before: Hub, after: Hub, now: int)
    requires
        before.wf(),
        after.is_cleaned(before, now),
    ensures
        after.supply.total_unbonding == before.supply.total_unbonding - matured(
            before.unbonding@,
            now,
        ),
        after.supply.bond_denom == before.supply.bond_denom,
        after.supply.issued == before.supply.issued,
        after.supply.total_bonded == before.supply.total_bonded,
        after.supply.claims == before.supply.claims,
        after.config == before.config,
        after.stake_info == before.stake_info,
        after.bonded == before.bonded,
        after.tmp_balance == before.tmp_balance,
        forall|e: UnbondingEntry|
            #![trigger after.unbonding@.contains(e)]
            #![trigger before.unbonding@.contains(e)]
            after.unbonding@.contains(e) <==> before.unbonding@.contains(e) && e.time > now,
{
    let keep = |e: UnbondingEntry| e.time > now;
    filtered_total(before.unbonding@, keep);
    filter_membership(before.unbonding@, keep);
}

/// A filtered queue holds exactly the entries that pass.
proof fn filter_membership(queue: Seq<UnbondingEntry>, keep: spec_fn(UnbondingEntry) -> bool)
    ensures
        forall|e: UnbondingEntry|
            #![trigger queue.filter(keep).contains(e)]
            #![trigger queue.contains(e)]
            queue.filter(keep).contains(e) <==> queue.contains(e) && keep(e),
    decreases queue.len(),
{
    reveal(Seq::filter);
    let all = queue.filter(keep);
    if queue.len() > 0 {
        let front = queue.drop_last();
        let last = queue.len() - 1;
        let kept = front.filter(keep);
        filter_membership(front, keep);
        assert forall|e: UnbondingEntry|
            #![trigger all.contains(e)]
            #![trigger queue.contains(e)]
            all.contains(e) <==> queue.contains(e) && keep(e) by {
            if all.contains(e) {
                let i = choose|i: int| 0 <= i < all.len() && all[i] == e;
                if i < kept.len() {
                    assert(kept[i] == e);
                    assert(kept.contains(e));
                    let j = choose|j: int| 0 <= j < front.len() && front[j] == e;
                    assert(queue[j] == e);
                } else {
                    assert(queue[last] == e);
                }
            }
            if queue.contains(e) && keep(e) {
                let j = choose|j: int| 0 <= j < queue.len() && queue[j] == e;
                if j < last {
                    assert(front[j] == e);
                    assert(kept.contains(e));
                    let i = choose|i: int| 0 <= i < kept.len() && kept[i] == e;
                    assert(all[i] == e);
                } else {
                    assert(all[kept.len() as int] == e);
                }
            }
        }
    }
}

/// The settings can be worked with exactly if they are within these limits.
pub proof fn settings_have_limits(config: Config)
    ensures
        config.wf() <==> {
            &&& 2 * config.commission.atomics <= 1_000_000_000_000_000_000
            &&& 2 * config.liquidity_discount.atomics < 1_000_000_000_000_000_000
            &&& 3600 <= config.epoch_period <= 31_536_000
            &&& 3600 <= config.unbond_period <= 31_536_000
            &&& config.max_concurrent_unbondings > 0
        },
{
}

/// The price of a share is what belongs to the holders, divided by the shares and
/// rounded down: the tokens at hand, bonded and being released, less the claims. As
/// long as there are no shares it is one.
pub proof fn share_price_is_assets_per_share(supply: Supply, balance: int)
    ensures
        supply.issued == 0 ==> supply.share_price(balance) == ONE,
        supply.issued > 0 ==> {
            let assets = balance + supply.total_bonded + supply.total_unbonding - supply.claims;
            &&& supply.share_price(balance) * supply.issued <= assets * ONE
            &&& assets * ONE < (supply.share_price(balance) + 1) * supply.issued
        },
{
    if supply.issued > 0 {
        floor_within(supply.assets(balance), ONE as int, supply.issued as int);
    }
}

/// A native token buys the shares divided by what belongs to their holders, rounded
/// down; one share as long as there are none.
pub proof fn token_price_is_shares_per_asset(supply: Supply, balance: int)
    requires
        balance + supply.total_bonded + supply.total_unbonding > supply.claims,
    ensures
        supply.issued == 0 ==> supply.token_price(balance) == ONE,
        supply.issued > 0 ==> {
            let assets = balance + supply.total_bonded + supply.total_unbonding - supply.claims;
            &&& supply.token_price(balance) * assets <= supply.issued * ONE
            &&& supply.issued * ONE < (supply.token_price(balance) + 1) * assets
        },
{
    if supply.issued > 0 {
        floor_within(supply.issued as int, ONE as int, supply.assets(balance));
    }
}

/// Shares are worth their price, and native tokens buy shares at theirs, each rounded
/// down.
pub proof fn amounts_follow_the_prices(supply: Supply, amount: int, balance: int)
    ensures
        supply.worth(amount, balance) * ONE <= amount * supply.share_price(balance),
        amount * supply.share_price(balance) < (supply.worth(amount, balance) + 1) * ONE,
        supply.bought(amount, balance) * ONE <= amount * supply.token_price(balance),
        amount * supply.token_price(balance) < (supply.bought(amount, balance) + 1) * ONE,
{
    floor_within(amount, supply.share_price(balance), ONE as int);
    floor_within(amount, supply.token_price(balance), ONE as int);
}

/// When a price can be stated: the claims do not exceed what there is, and the numbers
/// fit.
pub proof fn prices_exist_unless_claims_exceed_everything(supply: Supply, balance: int)
    ensures
        supply.share_priced(balance) <==> {
            let all = balance + supply.total_bonded + supply.total_unbonding;
            &&& supply.claims <= all <= u128::MAX
            &&& supply.share_price(balance) <= u128::MAX
        },
        supply.token_priced(balance) <==> {
            let all = balance + supply.total_bonded + supply.total_unbonding;
            &&& supply.claims <= all <= u128::MAX
            &&& supply.issued > 0 ==> supply.claims < all
            &&& supply.token_price(balance) <= u128::MAX
        },
{
}

/// Leaving the pool takes the shares off those in circulation and adds what they are
/// worth to the claims; joining it adds what is bought. Nothing else changes.
pub proof fn joining_and_leaving_change_shares_and_claims(
    supply: Supply,
    amount: u128,
    balance: int,
)
    ensures
        supply.can_unbond(amount as int, balance) <==> {
            &&& supply.share_priced(balance)
            &&& amount <= supply.issued
            &&& supply.claims + supply.worth(amount as int, balance) <= u128::MAX
        },
        supply.can_unbond(amount as int, balance) ==> {
            let after = supply.unbonded(amount as int, balance);
            &&& after.issued == supply.issued - amount
            &&& after.claims == supply.claims + supply.worth(amount as int, balance)
            &&& after.total_bonded == supply.total_bonded
            &&& after.total_unbonding == supply.total_unbonding
            &&& after.bond_denom == supply.bond_denom
        },
        supply.can_bond(amount as int, balance) <==> {
            &&& supply.token_priced(balance)
            &&& supply.issued + supply.bought(amount as int, balance) <= u128::MAX
        },
        supply.can_bond(amount as int, balance) ==> {
            let after = supply.bonded(amount as int, balance);
            &&& after.issued == supply.issued + supply.bought(amount as int, balance)
            &&& after.claims == supply.claims
            &&& after.total_bonded == supply.total_bonded
            &&& after.total_unbonding == supply.total_unbonding
            &&& after.bond_denom == supply.bond_denom
        },
{
    if supply.can_unbond(amount as int, balance) {
        crate::laws::worth_is_a_fair_part(supply, amount as int, balance);
    }
    if supply.can_bond(amount as int, balance) {
        let price = supply.token_price(balance);
        let assets = supply.assets(balance);
        let issued = supply.issued as int;
        let one = ONE as int;
        let bought = supply.bought(amount as int, balance);
        if issued > 0 {
            assert(price >= 0) by (nonlinear_arith)
                requires
                    price == (issued * one) / assets,
                    issued > 0,
                    one > 0,
                    assets > 0,
            ;
        }
        assert(bought >= 0) by (nonlinear_arith)
            requires
                bought == (amount * price) / one,
                amount >= 0,
                price >= 0,
                one > 0,
        ;
    }
}

/// Shares that the token hands over become a claim, unless the token is another one or
/// the chain reports an error. The claim can be paid once `unbond_period` has passed
/// since the next release can begin: that is, since the later of `next_unbond` and
/// `next_epoch`. It is over what the shares are worth at the current price, in which
/// stake that has been released counts only once it is at hand. The shares are burnt.
pub proof fn unbonding_makes_a_claim(
    before: Hub,
    after: Hub,
    contract_sender: Seq<char>,
    amount: u128,
    sender: HostResult<String>,
    balance: HostResult<u128>,
    now: int,
    r: Result<(Response, NewClaim), ContractError>,
) -> (price: int)
    requires
        before.wf(),
        balance is Ok ==> before.can_unbond(amount as int, balance->Ok_0 as int, now),
        unbonded(before, after, contract_sender, amount as int, sender, balance, now, r),
    ensures
        r is Ok <==> contract_sender == before.config.token_contract@ && balance is Ok && sender
            is Ok,
        contract_sender != before.config.token_contract@ ==> r == Err::<
            (Response, NewClaim),
            ContractError,
        >(ContractError::InvalidToken),
        contract_sender == before.config.token_contract@ && balance is Err ==> r == Err::<
            (Response, NewClaim),
            ContractError,
        >(ContractError::Std(BasicError::Host(balance->Err_0))),
        contract_sender == before.config.token_contract@ && balance is Ok && sender is Err ==> r
            == Err::<(Response, NewClaim), ContractError>(
            ContractError::Std(BasicError::Host(sender->Err_0)),
        ),
        r is Err ==> after == before,
        r is Ok ==> {
            let claim = r->Ok_0.1;
            let response = r->Ok_0.0;
            let assets = balance->Ok_0 + before.supply.total_bonded + (
            before.supply.total_unbonding - matured(before.unbonding@, now)) - before.supply.claims;
            // when
            &&& before.config.next_unbond >= before.config.next_epoch ==> claim.release_at.nanos
                == (before.config.next_unbond + before.config.unbond_period) * 1_000_000_000
            &&& before.config.next_unbond < before.config.next_epoch ==> claim.release_at.nanos == (
            before.config.next_epoch + before.config.unbond_period) * 1_000_000_000
            // whose, and how much
            &&& claim.owner == sender->Ok_0
            &&& before.supply.issued > 0 ==> price * before.supply.issued <= assets * ONE < (price
                + 1) * before.supply.issued
            &&& before.supply.issued == 0 ==> price == ONE
            &&& claim.amount * ONE <= amount * price < (claim.amount + 1) * ONE
            // what becomes of the books
            &&& after.supply.claims == before.supply.claims + claim.amount
            &&& after.supply.issued == before.supply.issued - amount
            &&& after.supply.total_bonded == before.supply.total_bonded
            &&& after.supply.total_unbonding == before.supply.total_unbonding - matured(
                before.unbonding@,
                now,
            )
            &&& after.supply.bond_denom == before.supply.bond_denom
            &&& after.config == before.config
            &&& after.stake_info == before.stake_info
            &&& after.bonded == before.bonded
            &&& after.tmp_balance == before.tmp_balance
            &&& after.unbonding@ == pending(before.unbonding@, now)
            // what the token is told
            &&& response.attributes@.len() == 0
            &&& response.messages@.len() == 1
            &&& response.messages@[0].reply_on == ReplyOn::Never
            &&& response.messages@[0].id == 0
            &&& response.messages@[0].msg matches CosmosMsg::Execute { contract_addr, msg }
            &&& contract_addr == before.config.token_contract
            &&& msg@ == encode_utf8(
                "{\"burn\":{\"amount\":\""@ + digits(amount as nat) + "\"}}"@,
            )
        },
{
    filtered_total(before.unbonding@, |e: UnbondingEntry| e.time > now);
    let supply = before.cleaned_supply(now);
    if balance is Ok {
        let at_hand = balance->Ok_0 as int;
        share_price_is_assets_per_share(supply, at_hand);
        amounts_follow_the_prices(supply, amount as int, at_hand);
        joining_and_leaving_change_shares_and_claims(supply, amount, at_hand);
        supply.share_price(at_hand)
    } else {
        0
    }
}

/// Shares can be turned into a claim if they exist and have a price, and the numbers
/// fit.
pub proof fn unbonding_is_possible_when(hub: Hub, amount: u128, balance: int, now: int)
    ensures
        hub.can_unbond(amount as int, balance, now) <==> {
            let supply = hub.cleaned_supply(now);
            &&& supply.share_priced(balance)
            &&& amount <= supply.issued
            &&& supply.claims + supply.worth(amount as int, balance) <= u128::MAX
            &&& (hub.config.next_unbond + hub.config.unbond_period) * 1_000_000_000 <= u64::MAX
            &&& (hub.config.next_epoch + hub.config.unbond_period) * 1_000_000_000 <= u64::MAX
        },
{
    joining_and_leaving_change_shares_and_claims(hub.cleaned_supply(now), amount, balance);
}

/// The rate that is told is what belongs to the holders per share, rounded down. Of
/// the stake that is being released only what is pending counts; what has been released
/// is at hand. It can be told exactly if the claims do not exceed what there is, and
/// the numbers fit.
pub proof fn rate_is_assets_per_share(hub: Hub, balance: u128, now: int)
    requires
        hub.wf(),
    ensures
        hub.priced(balance as int, now) <==> {
            let all = balance + hub.supply.total_bonded + (hub.supply.total_unbonding - matured(
                hub.unbonding@,
                now,
            ));
            &&& hub.supply.claims <= all <= u128::MAX
            &&& hub.supply.issued > 0 ==> (all - hub.supply.claims) * ONE < (u128::MAX + 1)
                * hub.supply.issued
        },
        hub.priced(balance as int, now) && hub.supply.issued == 0 ==> hub.rate(
            balance as int,
            now,
        ).atomics == ONE,
        hub.priced(balance as int, now) && hub.supply.issued > 0 ==> {
            let assets = balance + hub.supply.total_bonded + (hub.supply.total_unbonding - matured(
                hub.unbonding@,
                now,
            )) - hub.supply.claims;
            let rate = hub.rate(balance as int, now).atomics;
            &&& rate * hub.supply.issued <= assets * ONE
            &&& assets * ONE < (rate + 1) * hub.supply.issued
        },
{
    filtered_total(hub.unbonding@, |e: UnbondingEntry| e.time > now);
    let supply = hub.cleaned_supply(now);
    let price = supply.share_price(balance as int);
    let assets = supply.assets(balance as int);
    let issued = supply.issued as int;
    share_price_is_assets_per_share(supply, balance as int);
    if issued > 0 {
        let limit = u128::MAX as int;
        if price <= limit {
            assert((price + 1) * issued <= (limit + 1) * issued) by (nonlinear_arith)
                requires
                    price <= limit,
                    issued > 0,
            ;
        } else {
            assert((limit + 1) * issued <= price * issued) by (nonlinear_arith)
                requires
                    limit < price,
                    issued > 0,
            ;
        }
        if assets >= 0 {
            assert(price >= 0) by (nonlinear_arith)
                requires
                    price == (assets * 1_000_000_000_000_000_000) / issued,
                    assets >= 0,
                    issued > 0,
            ;
        }
    }
}

/// The rate does not depend on whether what has been released has been struck out
/// already.
pub proof fn rate_is_the_same_after_cleaning(hub: Hub, cleaned: Hub, balance: int, now: int)
    requires
        hub.wf(),
        cleaned.is_cleaned(hub, now),
    ensures
        cleaned.rate(balance, now) == hub.rate(balance, now),
        cleaned.priced(balance, now) == hub.priced(balance, now),
{
    crate::laws::cleaning_can_wait(hub, cleaned, now, now);
}

/// The rate does not change when stake that has been released arrives.
pub proof fn arriving_stake_keeps_the_rate(hub: Hub, balance: int, now: int, later: int)
    requires
        hub.wf(),
        now <= later,
    ensures
        matured(hub.unbonding@, now) <= matured(hub.unbonding@, later),
        hub.rate(balance, now) == hub.rate(
            balance + matured(hub.unbonding@, later) - matured(hub.unbonding@, now),
            later,
        ),
{
    let queue = hub.unbonding@;
    filtered_total(queue, |e: UnbondingEntry| e.time > now);
    filtered_total(queue, |e: UnbondingEntry| e.time > later);
    filtered_total(pending(queue, now), |e: UnbondingEntry| e.time > later);
    crate::laws::pending_later(queue, now, later);
    let arrived = matured(queue, later) - matured(queue, now);
    assert(hub.cleaned_supply(now).assets(balance) == hub.cleaned_supply(later).assets(
        balance + arrived,
    ));
}

/// The target value is the rate less the discount of the settings, rounded down.
pub proof fn target_is_the_rate_less_the_discount(hub: Hub, rate: Decimal)
    requires
        hub.config.liquidity_discount.atomics <= ONE,
    ensures
        ({
            let target = hub.discounted(rate).atomics;
            let kept = ONE - hub.config.liquidity_discount.atomics;
            target * ONE <= rate.atomics * kept < (target + 1) * ONE
        }),
        hub.config.liquidity_discount.atomics == 0 ==> hub.discounted(rate) == rate,
{
    let kept = ONE - hub.config.liquidity_discount.atomics;
    let price = rate.atomics as int;
    let one = ONE as int;
    floor_within(price, kept, one);
    assert(0 <= (price * kept) / one <= price) by (nonlinear_arith)
        requires
            price >= 0,
            0 <= kept <= one,
            one > 0,
    ;
    if hub.config.liquidity_discount.atomics == 0 {
        assert((price * one) / one == price) by (nonlinear_arith)
            requires
                one > 0,
        ;
    }
}

/// A larger discount never gives a larger target value, and a larger rate never a
/// smaller one.
pub proof fn target_falls_with_the_discount(less: Hub, more: Hub, low: Decimal, high: Decimal)
    requires
        less.config.liquidity_discount.atomics <= more.config.liquidity_discount.atomics <= ONE,
        low.atomics <= high.atomics,
    ensures
        more.discounted(low).atomics <= less.discounted(high).atomics,
{
    target_is_the_rate_less_the_discount(less, high);
    target_is_the_rate_less_the_discount(more, low);
    let a = more.discounted(low).atomics as int;
    let b = less.discounted(high).atomics as int;
    let one = ONE as int;
    let small = ONE - more.config.liquidity_discount.atomics;
    let large = ONE - less.config.liquidity_discount.atomics;
    let p = low.atomics as int;
    let q = high.atomics as int;
    assert(p * small <= q * large) by (nonlinear_arith)
        requires
            0 <= p <= q,
            0 <= small <= large,
    ;
    assert(a < b + 1) by (nonlinear_arith)
        requires
            a * one < (b + 1) * one,
            one > 0,
    ;
}

/// What is told of the settings and the books is what is stored.
pub proof fn answers_tell_what_is_stored(config: Config, supply: Supply)
    ensures
        config_info(config).owner == config.owner,
        config_info(config).token_contract == config.token_contract,
        config_info(config).treasury == config.treasury,
        config_info(config).commission == config.commission,
        config_info(config).epoch_period == config.epoch_period,
        config_info(config).unbond_period == config.unbond_period,
        supply_info(supply).bond_denom == supply.bond_denom,
        supply_info(supply).issued == supply.issued,
        supply_info(supply).total_bonded == supply.total_bonded,
        supply_info(supply).claims == supply.claims,
        supply_info(supply).total_unbonding == supply.total_unbonding,
{
}

/// A release has to wait for the shortest time of which `max_concurrent_unbondings`
/// make an unbonding period, counted from the last one. Nothing else changes.
pub proof fn releases_wait_no_longer_than_needed(config: Config, now: int)
    requires
        config.wf(),
        0 <= now,
        now + config.unbond_interval() <= u64::MAX,
    ensures
        ({
            let after = config.after_unbond(now);
            let wait = after.next_unbond - now;
            &&& config.max_concurrent_unbondings * wait >= config.unbond_period
            &&& config.max_concurrent_unbondings * (wait - 1) < config.unbond_period
            &&& after == (Config { next_unbond: after.next_unbond, ..config })
        }),
{
    interval_natural(config);
    let p = config.unbond_period as int;
    let m = config.max_concurrent_unbondings as int;
    let interval = config.unbond_interval();
    assert(m * (interval - 1) < p) by (nonlinear_arith)
        requires
            interval == (p + m - 1) / m,
            m > 0,
            p >= 0,
    ;
}

/// The beginning of a reinvestment notes what is at hand and moves the next epoch to
/// the next point of the rhythm. Nothing else changes.
pub proof fn reinvestment_notes_the_balance(hub: Hub, balance: u128, now: Timestamp)
    requires
        hub.wf(),
        hub.config.next_epoch <= now.secs(),
    ensures
        ({
            let after = hub.epoch_started(balance as int, now.secs());
            let next = after.config.next_epoch;
            &&& now.secs() < next <= now.secs() + hub.config.epoch_period
            &&& (next - hub.config.next_epoch) % hub.config.epoch_period as int == 0
            &&& after.config == (Config { next_epoch: next, ..hub.config })
            &&& after.tmp_balance == Some(balance)
            &&& after.supply == hub.supply
            &&& after.stake_info == hub.stake_info
            &&& after.bonded == hub.bonded
            &&& after.unbonding == hub.unbonding
        }),
{
    epochs_keep_their_rhythm(
        hub.config.next_epoch as int,
        hub.config.epoch_period as int,
        now.secs(),
    );
}

/// Native tokens buy shares at what the others have per share, before the payment
/// counts, rounded down; one share each as long as there are none. Of the stake that is
/// being released only what is pending counts.
pub proof fn bonding_issues_shares(hub: Hub, paid: u128, balance: int, now: int) -> (price: int)
    requires
        hub.wf(),
        hub.cleaned_supply(now).can_bond(paid as int, balance - paid),
    ensures
        ({
            let assets = (balance - paid) + hub.supply.total_bonded + (hub.supply.total_unbonding
                - matured(hub.unbonding@, now)) - hub.supply.claims;
            let issue = hub.cleaned_supply(now).bought(paid as int, balance - paid);
            let after = hub.cleaned_supply(now).bonded(paid as int, balance - paid);
            &&& hub.supply.issued > 0 ==> price * assets <= hub.supply.issued * ONE < (price + 1)
                * assets
            &&& hub.supply.issued == 0 ==> price == ONE
            &&& issue * ONE <= paid * price < (issue + 1) * ONE
            &&& after.issued == hub.supply.issued + issue
            &&& after.claims == hub.supply.claims
            &&& after.total_bonded == hub.supply.total_bonded
            &&& after.total_unbonding == hub.supply.total_unbonding - matured(
                hub.unbonding@,
                now,
            )
            &&& after.bond_denom == hub.supply.bond_denom
        }),
{
    filtered_total(hub.unbonding@, |e: UnbondingEntry| e.time > now);
    let supply = hub.cleaned_supply(now);
    if supply.issued > 0 {
        token_price_is_shares_per_asset(supply, balance - paid);
    }
    amounts_follow_the_prices(supply, paid as int, balance - paid);
    joining_and_leaving_change_shares_and_claims(supply, paid, balance - paid);
    supply.token_price(balance - paid)
}

/// A call of the share token is a single message to it, without a callback.
pub proof fn token_calls_go_to_the_token(response: Response, config: Config, body: Seq<char>)
    requires
        calls_token(response, config, body),
    ensures
        response.attributes@.len() == 0,
        response.messages@.len() == 1,
        response.messages@[0].id == 0,
        response.messages@[0].reply_on == ReplyOn::Never,
        response.messages@[0].msg is Execute,
        response.messages@[0].msg->Execute_contract_addr == config.token_contract,
        response.messages@[0].msg->Execute_msg@ == encode_utf8(body),
{
}

/// Messages are handed on one for one, in their order and without a callback;
/// attributes are told as they are; an empty response holds nothing.
pub proof fn responses_say_what_was_put_in(
    messages: Seq<CosmosMsg>,
    attributes: Seq<Attribute>,
    response: Response,
)
    ensures
        all_plain(messages).len() == messages.len(),
        forall|i: int|
            0 <= i < messages.len() ==> #[trigger] all_plain(messages)[i] == (SubMsg {
                id: 0,
                msg: messages[i],
                reply_on: ReplyOn::Never,
            }),
        texts(attributes).len() == attributes.len(),
        forall|i: int|
            0 <= i < attributes.len() ==> #[trigger] texts(attributes)[i] == (
                attributes[i].key@,
                attributes[i].value@,
            ),
        response.is_empty() <==> response.messages@.len() == 0 && response.attributes@.len() == 0,
{
    if response.messages@.len() == 0 && response.attributes@.len() == 0 {
        assert(response.messages@ =~= Seq::empty());
        assert(response.attributes@ =~= Seq::empty());
    }
}

/// In an emergency every delegation is undelegated, as a whole and from its own
/// validator.
pub proof fn emergency_undelegates_each_delegation(delegations: Seq<Delegation>)
    ensures
        undelegate_all(delegations).len() == delegations.len(),
        forall|i: int|
            0 <= i < delegations.len() ==> #[trigger] undelegate_all(delegations)[i] == (SubMsg {
                id: 0,
                msg: CosmosMsg::Undelegate {
                    validator: delegations[i].validator,
                    amount: delegations[i].amount,
                },
                reply_on: ReplyOn::Never,
            }),
{
}

/// `picked` lists the places, in their order, at which `wanted` holds.
pub open spec fn picks(picked: Seq<int>, len: int, wanted: spec_fn(int) -> bool) -> bool {
    &&& forall|p: int| 0 <= p < picked.len() ==> 0 <= #[trigger] picked[p] < len
    &&& forall|p: int| 0 <= p < picked.len() ==> wanted(#[trigger] picked[p])
    &&& forall|p: int, q: int|
        0 <= p < q < picked.len() ==> #[trigger] picked[p] < #[trigger] picked[q]
    &&& forall|i: int| 0 <= i < len && #[trigger] wanted(i) ==> picked.contains(i)
}

/// One more place is picked if it is wanted.
proof fn picks_step(
    picked: Seq<int>,
    len: int,
    front_wanted: spec_fn(int) -> bool,
    wanted: spec_fn(int) -> bool,
) -> (r: Seq<int>)
    requires
        len >= 0,
        picks(picked, len, front_wanted),
        forall|i: int| 0 <= i < len ==> front_wanted(i) == #[trigger] wanted(i),
    ensures
        picks(r, len + 1, wanted),
        r == if wanted(len) {
            picked.push(len)
        } else {
            picked
        },
{
    let r = if wanted(len) {
        picked.push(len)
    } else {
        picked
    };
    assert forall|i: int| 0 <= i < len + 1 && #[trigger] wanted(i) implies r.contains(i) by {
        if i < len {
            assert(front_wanted(i));
            let p = choose|p: int| 0 <= p < picked.len() && picked[p] == i;
            assert(r[p] == i);
        } else {
            assert(r[picked.len() as int] == i);
        }
    }
    assert forall|p: int| 0 <= p < r.len() implies wanted(#[trigger] r[p]) by {
        if p < picked.len() {
            assert(r[p] == picked[p]);
            assert(front_wanted(picked[p]));
            assert(wanted(picked[p]));
        }
    }
    assert forall|p: int, q: int| 0 <= p < q < r.len() implies #[trigger] r[p]
        < #[trigger] r[q] by {
        assert(r[p] == picked[p]);
        if q < picked.len() {
            assert(r[q] == picked[q]);
        }
    }
    r
}

/// The payments are for the validators in the list whose amount is not zero.
proof fn payments_pick(validators: Seq<(String, Decimal)>, amounts: Seq<int>) -> (picked: Seq<int>)
    requires
        amounts.len() == validators.len(),
    ensures
        picks(picked, validators.len() as int, |i: int| amounts[i] != 0),
        due(validators, amounts).len() == picked.len(),
        forall|p: int|
            0 <= p < picked.len() ==> #[trigger] due(validators, amounts)[p] == (
                validators[picked[p]].0,
                amounts[picked[p]] as u128,
            ),
    decreases validators.len(),
{
    if validators.len() == 0 {
        Seq::empty()
    } else {
        let front = validators.drop_last();
        let rest = amounts.drop_last();
        let last = validators.len() - 1;
        let before = payments_pick(front, rest);
        let picked = picks_step(
            before,
            last,
            |i: int| rest[i] != 0,
            |i: int| amounts[i] != 0,
        );
        assert forall|p: int| 0 <= p < picked.len() implies #[trigger] due(validators, amounts)[p]
            == (validators[picked[p]].0, amounts[picked[p]] as u128) by {
            if p < before.len() {
                assert(due(front, rest)[p] == (front[before[p]].0, rest[before[p]] as u128));
            }
        }
        picked
    }
}

/// The validators that have a weight, by their places in the list.
proof fn weights_pick(validators: Seq<(String, Decimal)>) -> (picked: Seq<int>)
    ensures
        picks(picked, validators.len() as int, |i: int| validators[i].1.atomics != 0),
        weighted(validators).len() == picked.len(),
        forall|p: int|
            0 <= p < picked.len() ==> #[trigger] weighted(validators)[p] == validators[picked[p]],
    decreases validators.len(),
{
    reveal(Seq::filter);
    if validators.len() == 0 {
        Seq::empty()
    } else {
        let front = validators.drop_last();
        let last = validators.len() - 1;
        let before = weights_pick(front);
        let picked = picks_step(
            before,
            last,
            |i: int| front[i].1.atomics != 0,
            |i: int| validators[i].1.atomics != 0,
        );
        assert forall|p: int| 0 <= p < picked.len() implies #[trigger] weighted(validators)[p]
            == validators[picked[p]] by {
            if p < before.len() {
                assert(weighted(front)[p] == front[before[p]]);
            }
        }
        picked
    }
}

/// The rewards of every validator with a weight are withdrawn, once and in the order of
/// the list. After the last withdrawal the hub is called back in any case, after the
/// others if they fail.
pub proof fn rewards_are_withdrawn_by_validator(validators: Seq<(String, Decimal)>) -> (picked: Seq<
    int,
>)
    ensures
        picks(picked, validators.len() as int, |i: int| validators[i].1.atomics != 0),
        withdrawals(weighted(validators)).len() == picked.len(),
        forall|p: int|
            0 <= p < picked.len() ==> {
                let msg = #[trigger] withdrawals(weighted(validators))[p];
                &&& msg.msg == CosmosMsg::WithdrawDelegatorReward {
                    validator: validators[picked[p]].0,
                }
                &&& p == picked.len() - 1 ==> msg.id == 2 && msg.reply_on == ReplyOn::Always
                &&& p < picked.len() - 1 ==> msg.id == 3 && msg.reply_on == ReplyOn::Error
            },
{
    let picked = weights_pick(validators);
    assert forall|p: int| 0 <= p < picked.len() implies {
        let msg = #[trigger] withdrawals(weighted(validators))[p];
        &&& msg.msg == CosmosMsg::WithdrawDelegatorReward { validator: validators[picked[p]].0 }
        &&& p == picked.len() - 1 ==> msg.id == 2 && msg.reply_on == ReplyOn::Always
        &&& p < picked.len() - 1 ==> msg.id == 3 && msg.reply_on == ReplyOn::Error
    } by {
        assert(weighted(validators)[p] == validators[picked[p]]);
    }
    picked
}

/// What a settlement pays to the treasury, and what is there for the claims then.
pub struct Reckoning {
    /// What the treasury gets.
    pub commission: int,
    /// What is at hand or being released.
    pub coverage: int,
    /// What each validator in the list is given or has to give up.
    pub amounts: Seq<int>,
    /// The places of the validators that get a message.
    pub picked: Seq<int>,
}

impl Reckoning {
    /// The commission is the part of the rewards that the settings say, rounded down,
    /// and the coverage what is left with what is pending.
    pub open spec fn follows_from(&self, before: Hub, balance: int, now: Timestamp) -> bool {
        let rewards = balance - before.tmp_balance->Some_0;
        &&& self.commission * ONE <= rewards * before.config.commission.atomics < (self.commission
            + 1) * ONE
        &&& self.coverage == balance - self.commission + (before.supply.total_unbonding - matured(
            before.unbonding@,
            now.secs(),
        ))
    }

    /// First the treasury is paid, unless there is nothing to pay; then one message goes
    /// out for each validator whose amount is not zero, in the order of the list.
    pub open spec fn announced(
        &self,
        messages: Seq<SubMsg>,
        before: Hub,
        to_message: spec_fn(String, Coin) -> CosmosMsg,
    ) -> bool {
        let validators = before.stake_info.validators@;
        let denom = before.supply.bond_denom;
        let paid: int = if self.commission == 0 {
            0
        } else {
            1
        };
        &&& self.amounts.len() == validators.len()
        &&& picks(self.picked, validators.len() as int, |i: int| self.amounts[i] != 0)
        &&& messages.len() == paid + self.picked.len()
        &&& self.commission != 0 ==> messages[0] == (SubMsg {
            id: 0,
            msg: CosmosMsg::Send {
                to_address: before.config.treasury,
                amount: Coin { denom, amount: self.commission as u128 },
            },
            reply_on: ReplyOn::Never,
        })
        &&& forall|p: int|
            0 <= p < self.picked.len() ==> #[trigger] messages[paid + p] == (SubMsg {
                id: 0,
                msg: to_message(
                    validators[self.picked[p]].0,
                    Coin { denom, amount: self.amounts[self.picked[p]] as u128 },
                ),
                reply_on: ReplyOn::Never,
            })
    }
}

/// No number of a list of naturals is more than the list.
proof fn number_within_sum(amounts: Seq<int>, n: int)
    requires
        0 <= n < amounts.len(),
        forall|i: int| 0 <= i < amounts.len() ==> #[trigger] amounts[i] >= 0,
    ensures
        amounts[n] <= sum(amounts),
    decreases amounts.len(),
{
    if n == amounts.len() - 1 {
        sum_natural(amounts.drop_last());
    } else {
        assert(amounts[amounts.len() - 1] >= 0);
        number_within_sum(amounts.drop_last(), n);
    }
}

/// What every settlement of a balance has in common: the commission is sent, the
/// coverage is what is left, and nothing but stakes, the queue and the next release
/// changes.
proof fn settlement_reckons(
    before: Hub,
    after: Hub,
    response: Response,
    balance: int,
    now: Timestamp,
) -> (r: Reckoning)
    requires
        before.wf(),
        balance != 0,
        before.situation(balance, now).defined(),
        settled(before, after, response, balance, now),
    ensures
        r.follows_from(before, balance, now),
        r.commission == before.situation(balance, now).commission(),
        r.coverage == before.situation(balance, now).coverage(),
        0 <= r.commission <= balance - before.tmp_balance->Some_0,
        r.amounts == before.situation(balance, now).amounts(),
        r.picked == Seq::<int>::empty(),
        after.supply.issued == before.supply.issued,
        after.supply.claims == before.supply.claims,
        after.supply.bond_denom == before.supply.bond_denom,
        after.stake_info == before.stake_info,
        after.tmp_balance == before.tmp_balance,
        response.attributes@.len() == 0,
{
    let s = before.situation(balance, now);
    filtered_total(before.unbonding@, |e: UnbondingEntry| e.time > now.secs());
    portions_are_rounded_down(s.rewards(), before.config.commission);
    commission_is_bounded(s);
    Reckoning {
        commission: s.commission(),
        coverage: s.coverage(),
        amounts: s.amounts(),
        picked: Seq::empty(),
    }
}

/// The stakes after a settlement, one validator at a time.
pub open spec fn stakes_change_by(before: Hub, after: Hub, changes: Seq<int>) -> bool {
    let validators = before.stake_info.validators@;
    let was = stake_map(before.bonded@);
    let is = stake_map(after.bonded@);
    &&& forall|i: int|
        0 <= i < validators.len() ==> stake_of(is, #[trigger] validators[i].0@) == stake_of(
            was,
            validators[i].0@,
        ) + changes[i]
    &&& forall|k: Seq<char>|
        (forall|j: int| 0 <= j < validators.len() ==> #[trigger] validators[j].0@ != k)
            ==> #[trigger] stake_of(is, k) == stake_of(was, k)
    &&& forall|k: Seq<char>| #[trigger] is.contains_key(k) ==> is[k] > 0
    &&& ascending(after.bonded@)
}

/// The stakes that are kept after a move are those that were moved, without empty ones.
proof fn stakes_follow(before: Hub, after: Hub, changes: Seq<int>)
    requires
        changes.len() == before.stake_info.validators@.len(),
        distinct(before.stake_info.validators@),
        ascending(after.bonded@),
        stake_map(after.bonded@) == without_zeros(
            moved(stake_map(before.bonded@), before.stake_info.validators@, changes),
        ),
    ensures
        stakes_change_by(before, after, changes),
{
    let m = moved(stake_map(before.bonded@), before.stake_info.validators@, changes);
    let is = stake_map(after.bonded@);
    moved_apart(stake_map(before.bonded@), before.stake_info.validators@, changes);
    assert forall|k: Seq<char>| #[trigger] stake_of(is, k) == stake_of(m, k) by {}
    stake_map_finite(after.bonded@);
}

/// If the tokens at hand, after the commission, and those that are pending are more
/// than the claims, the difference is delegated. Every validator is given the part of
/// it that its weight says, rounded down, and the first one what is lost by rounding on
/// top: with weights that are one together less than one unit for each validator.
pub proof fn surplus_goes_to_each_by_weight(
    before: Hub,
    after: Hub,
    response: Response,
    balance: int,
    now: Timestamp,
) -> (r: Reckoning)
    requires
        before.wf(),
        0 < balance <= u128::MAX,
        before.situation(balance, now).defined(),
        settled(before, after, response, balance, now),
    ensures
        r.follows_from(before, balance, now),
        r.coverage > before.supply.claims ==> {
            let surplus = r.coverage - before.supply.claims;
            let validators = before.stake_info.validators@;
            // how much
            &&& r.amounts.len() == validators.len() > 0
            &&& forall|i: int|
                0 <= i < validators.len() ==> 0 <= #[trigger] r.amounts[i] <= surplus <= u128::MAX
            &&& forall|i: int|
                1 <= i < validators.len() ==> #[trigger] r.amounts[i] * ONE <= surplus
                    * validators[i].1.atomics < (r.amounts[i] + 1) * ONE
            &&& surplus * validators[0].1.atomics < (r.amounts[0] + 1) * ONE
            &&& weights_total(validators) == ONE ==> (r.amounts[0] - validators.len() + 1) * ONE
                <= surplus * validators[0].1.atomics
            &&& sum(r.amounts) == surplus
            // what the chain is asked
            &&& r.announced(
                response.messages@,
                before,
                |validator: String, amount: Coin| CosmosMsg::Delegate { validator, amount },
            )
            &&& response.attributes@.len() == 0
            // what becomes of the state
            &&& distinct(validators) ==> stakes_change_by(before, after, r.amounts)
            &&& before.balanced() ==> after.supply.total_bonded == before.supply.total_bonded
                + surplus
            &&& after.supply.total_unbonding == before.supply.total_unbonding - matured(
                before.unbonding@,
                now.secs(),
            )
            &&& after.supply.issued == before.supply.issued
            &&& after.supply.claims == before.supply.claims
            &&& after.supply.bond_denom == before.supply.bond_denom
            &&& after.config == before.config
            &&& after.stake_info == before.stake_info
            &&& after.tmp_balance == before.tmp_balance
            &&& after.unbonding@ == pending(before.unbonding@, now.secs())
        },
{
    let s = before.situation(balance, now);
    let base = settlement_reckons(before, after, response, balance, now);
    if base.coverage > before.supply.claims {
        let surplus = s.gap();
        let validators = s.validators;
        let amounts = base.amounts;
        filtered_total(before.unbonding@, |e: UnbondingEntry| e.time > now.secs());
        surplus_is_delegated(surplus, validators);
        portions_natural(surplus, validators);
        assert forall|i: int| 1 <= i < validators.len() implies #[trigger] amounts[i] * ONE
            <= surplus * validators[i].1.atomics < (amounts[i] + 1) * ONE by {
            portions_are_rounded_down(surplus, validators[i].1);
            assert(amounts[i] == portions(surplus, validators)[i]);
        }
        assert forall|i: int| 0 <= i < validators.len() implies 0 <= #[trigger] amounts[i]
            <= surplus <= u128::MAX by {
            assert forall|j: int| 0 <= j < amounts.len() implies #[trigger] amounts[j] >= 0 by {
                assert(portions(surplus, validators)[j] >= 0);
            }
            number_within_sum(amounts, i);
        }
        portions_are_rounded_down(surplus, validators[0].1);
        let first = portions(surplus, validators)[0];
        let extra = remainder(surplus, validators);
        assert(amounts[0] == first + extra);
        assert((first + 1) * ONE <= (amounts[0] + 1) * ONE) by (nonlinear_arith)
            requires
                first <= amounts[0],
        ;
        if weights_total(validators) == ONE {
            weights_of_one_share_everything(surplus, validators);
            let n = validators.len() as int;
            assert((amounts[0] - n + 1) * ONE <= first * ONE) by (nonlinear_arith)
                requires
                    amounts[0] - n + 1 <= first,
            ;
        }
        let picked = payments_pick(validators, amounts);
        let r = Reckoning { picked, ..base };
        if distinct(validators) {
            stakes_follow(before, after, amounts);
        }
        if before.balanced() {
            settlement_moves_stake(before, after, response, balance, now);
        }
        r
    } else {
        base
    }
}

/// Topping up goes from the first to the last: nobody is topped up before those ahead
/// have reached their limit, nobody beyond it, and what is left is left by all.
proof fn topping_up_is_in_order(amounts: Seq<int>, limits: Seq<int>, extra: int)
    requires
        amounts.len() == limits.len(),
        absorbable(amounts, limits, extra),
        extra >= 0,
    ensures
        absorbed(amounts, limits, extra).len() == amounts.len(),
        forall|i: int|
            0 <= i < amounts.len() ==> amounts[i] <= #[trigger] absorbed(amounts, limits, extra)[i],
        forall|i: int|
            0 <= i < amounts.len() && amounts[i] < #[trigger] absorbed(amounts, limits, extra)[i]
                ==> absorbed(amounts, limits, extra)[i] <= limits[i],
        forall|i: int, j: int|
            0 <= i < j < amounts.len() && amounts[j] < #[trigger] absorbed(
                amounts,
                limits,
                extra,
            )[j] ==> #[trigger] absorbed(amounts, limits, extra)[i] == limits[i],
        sum(absorbed(amounts, limits, extra)) <= sum(amounts) + extra,
        sum(absorbed(amounts, limits, extra)) == sum(amounts) + extra || forall|i: int|
            0 <= i < amounts.len() ==> #[trigger] absorbed(amounts, limits, extra)[i] == limits[i],
    decreases amounts.len(),
{
    let after = absorbed(amounts, limits, extra);
    if amounts.len() > 0 && extra != 0 {
        let first = topped_up(amounts[0], extra, limits[0]);
        let left = extra - (first - amounts[0]);
        let rest = amounts.drop_first();
        let caps = limits.drop_first();
        let tail = absorbed(rest, caps, left);
        topping_up_is_in_order(rest, caps, left);
        assert(after == seq![first] + tail);
        assert(after.drop_first() =~= tail);
        sum_first(amounts);
        sum_first(after);
        assert forall|i: int| 1 <= i < amounts.len() implies #[trigger] after[i] == tail[i - 1]
            && amounts[i] == rest[i - 1] && limits[i] == caps[i - 1] by {}
        assert forall|i: int| 0 <= i < amounts.len() implies amounts[i] <= #[trigger] after[i] by {
            if i > 0 {
                assert(rest[i - 1] <= tail[i - 1]);
            }
        }
        assert forall|i: int|
            0 <= i < amounts.len() && amounts[i] < #[trigger] after[i] implies after[i]
            <= limits[i] by {
            if i > 0 {
                assert(rest[i - 1] < tail[i - 1]);
            }
        }
        assert forall|i: int, j: int|
            0 <= i < j < amounts.len() && amounts[j]
                < #[trigger] after[j] implies #[trigger] after[i] == limits[i] by {
            assert(rest[j - 1] < tail[j - 1]);
            if i > 0 {
                assert(tail[i - 1] == caps[i - 1]);
            } else if left == 0 {
                assert(tail == rest);
            }
        }
        if sum(after) != sum(amounts) + extra {
            assert forall|i: int| 0 <= i < amounts.len() implies #[trigger] after[i]
                == limits[i] by {
                if i > 0 {
                    assert(tail[i - 1] == caps[i - 1]);
                } else if left == 0 {
                    assert(tail == rest);
                }
            }
        }
    } else if amounts.len() == 0 {
        assert(after == amounts);
    }
}

/// If the tokens at hand, after the commission, and those that are pending are less
/// than the claims, and a release is permitted, the difference is undelegated. Every
/// validator gives up the part of it that its weight says, rounded down; what is lost
/// by rounding is taken from the first ones that have stake left. The chain releases
/// it after `unbond_period`.
pub proof fn missing_is_taken_from_each_by_weight(
    before: Hub,
    after: Hub,
    response: Response,
    balance: int,
    now: Timestamp,
) -> (r: Reckoning)
    requires
        before.wf(),
        0 < balance <= u128::MAX,
        before.situation(balance, now).defined(),
        settled(before, after, response, balance, now),
    ensures
        r.follows_from(before, balance, now),
        r.coverage < before.supply.claims && before.config.next_unbond <= now.secs() ==> {
            let missing = before.supply.claims - r.coverage;
            let validators = before.stake_info.validators@;
            let stakes = stake_map(before.bonded@);
            // how much
            &&& r.amounts.len() == validators.len()
            &&& forall|i: int|
                0 <= i < validators.len() ==> 0 <= #[trigger] r.amounts[i] <= missing <= u128::MAX
            &&& forall|i: int|
                0 <= i < validators.len() ==> missing * validators[i].1.atomics < (
                #[trigger] r.amounts[i] + 1) * ONE
            &&& forall|i: int|
                0 <= i < validators.len() && missing * validators[i].1.atomics < (
                #[trigger] r.amounts[i]) * ONE ==> r.amounts[i] <= stake_of(
                    stakes,
                    validators[i].0@,
                )
            &&& forall|i: int, j: int|
                0 <= i < j < validators.len() && missing * validators[j].1.atomics < (
                #[trigger] r.amounts[j]) * ONE ==> #[trigger] r.amounts[i] == stake_of(
                    stakes,
                    validators[i].0@,
                )
            &&& sum(r.amounts) <= missing
            &&& sum(r.amounts) == missing || forall|i: int|
                0 <= i < validators.len() ==> #[trigger] r.amounts[i] == stake_of(
                    stakes,
                    validators[i].0@,
                )
            // what the chain is asked
            &&& r.announced(
                response.messages@,
                before,
                |validator: String, amount: Coin| CosmosMsg::Undelegate { validator, amount },
            )
            &&& response.attributes@.len() == 0
            // what becomes of the state
            &&& distinct(validators) ==> stakes_change_by(
                before,
                after,
                Seq::new(validators.len(), |i: int| -r.amounts[i]),
            )
            &&& before.balanced() ==> after.supply.total_bonded == before.supply.total_bonded
                - sum(r.amounts)
            &&& after.supply.total_unbonding == before.supply.total_unbonding - matured(
                before.unbonding@,
                now.secs(),
            ) + sum(r.amounts)
            &&& after.supply.issued == before.supply.issued
            &&& after.supply.claims == before.supply.claims
            &&& after.supply.bond_denom == before.supply.bond_denom
            &&& after.stake_info == before.stake_info
            &&& after.tmp_balance == before.tmp_balance
            // when the next release is possible
            &&& after.config == (Config {
                next_unbond: after.config.next_unbond,
                ..before.config
            })
            &&& before.config.max_concurrent_unbondings * (after.config.next_unbond - now.secs())
                >= before.config.unbond_period
            &&& before.config.max_concurrent_unbondings * (after.config.next_unbond - now.secs()
                - 1) < before.config.unbond_period
            // what is in the queue
            &&& after.unbonding@.len() > 0
            &&& after.unbonding@.last().time == now.secs() + before.config.unbond_period
            &&& after.unbonding@.last().unbondings@.len() == r.picked.len()
            &&& forall|p: int|
                0 <= p < r.picked.len() ==> #[trigger] after.unbonding@.last().unbondings@[p] == (
                Unbonding {
                    validator: validators[r.picked[p]].0,
                    amount: r.amounts[r.picked[p]] as u128,
                })
            &&& forall|e: UnbondingEntry|
                #![trigger after.unbonding@.drop_last().contains(e)]
                #![trigger before.unbonding@.contains(e)]
                after.unbonding@.drop_last().contains(e) <==> before.unbonding@.contains(e)
                    && e.time > now.secs() && e.time != now.secs() + before.config.unbond_period
        },
{
    let s = before.situation(balance, now);
    let base = settlement_reckons(before, after, response, balance, now);
    if base.coverage < before.supply.claims && before.config.next_unbond <= now.secs() {
        let missing = s.gap();
        let validators = s.validators;
        let amounts = base.amounts;
        let floors = portions(missing, validators);
        let caps = limits(validators, s.stakes);
        filtered_total(before.unbonding@, |e: UnbondingEntry| e.time > now.secs());
        portions_natural(missing, validators);
        topping_up_is_in_order(floors, caps, remainder(missing, validators));
        assert forall|i: int| 0 <= i < validators.len() implies caps[i] == stake_of(
            s.stakes,
            #[trigger] validators[i].0@,
        ) by {
            assert(s.stakes.contains_key(validators[i].0@));
        }
        assert forall|i: int| 0 <= i < validators.len() implies {
            &&& floors[i] * ONE <= missing * validators[i].1.atomics
            &&& missing * validators[i].1.atomics < (floors[i] + 1) * ONE
            &&& missing * validators[i].1.atomics < (#[trigger] amounts[i] + 1) * ONE
            &&& missing * validators[i].1.atomics < amounts[i] * ONE ==> floors[i] < amounts[i]
            &&& caps[i] == stake_of(s.stakes, validators[i].0@)
        } by {
            let a = amounts[i];
            let f = floors[i];
            let product = missing * validators[i].1.atomics;
            portions_are_rounded_down(missing, validators[i].1);
            assert(f == portion(missing, validators[i].1));
            assert(f <= a);
            assert((f + 1) * ONE <= (a + 1) * ONE) by (nonlinear_arith)
                requires
                    f <= a,
            ;
            if product < a * ONE {
                assert(f < a) by (nonlinear_arith)
                    requires
                        f * ONE <= product,
                        product < a * ONE,
                ;
            }
            assert(caps[i] == stake_of(s.stakes, validators[i].0@));
        }
        assert forall|i: int| 0 <= i < amounts.len() implies #[trigger] amounts[i] >= 0 by {
            assert(floors[i] >= 0);
        }
        assert forall|i: int| 0 <= i < validators.len() implies 0 <= #[trigger] amounts[i]
            <= missing <= u128::MAX by {
            number_within_sum(amounts, i);
        }
        sum_natural(amounts);
        let picked = payments_pick(validators, amounts);
        let r = Reckoning { picked, ..base };
        let changes = Seq::new(validators.len(), |i: int| -amounts[i]);
        assert(changes =~= crate::split::negated(amounts));
        if distinct(validators) {
            stakes_follow(before, after, changes);
        }
        if before.balanced() {
            settlement_moves_stake(before, after, response, balance, now);
        }
        interval_natural(before.config);
        let interval = before.config.unbond_interval();
        interval_fits(before.config);
        seconds_are_rounded_down(now);
        releases_wait_no_longer_than_needed(before.config, now.secs());
        filter_membership(before.unbonding@, |e: UnbondingEntry| e.time > now.secs());
        filter_membership(
            pending(before.unbonding@, now.secs()),
            |e: UnbondingEntry| e.time != s.release_time(),
        );
        let list = after.unbonding@.last().unbondings@;
        assert forall|p: int| 0 <= p < r.picked.len() implies #[trigger] list[p] == (Unbonding {
            validator: validators[r.picked[p]].0,
            amount: r.amounts[r.picked[p]] as u128,
        }) by {
            assert(due(validators, amounts)[p] == (
                validators[picked[p]].0,
                amounts[picked[p]] as u128,
            ));
        }
        r
    } else {
        base
    }
}

/// The time between two releases is at most an unbonding period.
proof fn interval_fits(config: Config)
    requires
        config.wf(),
    ensures
        config.unbond_interval() <= config.unbond_period,
{
    let p = config.unbond_period as int;
    let m = config.max_concurrent_unbondings as int;
    let interval = config.unbond_interval();
    assert(interval <= p) by (nonlinear_arith)
        requires
            interval == (p + m - 1) / m,
            m > 0,
            p > 0,
    ;
}

/// If the claims are exactly covered, or are not but no release is permitted yet,
/// nothing happens to the stakes: the commission is paid, and what has been released is
/// struck out.
pub proof fn settlement_can_leave_the_stakes_alone(
    before: Hub,
    after: Hub,
    response: Response,
    balance: int,
    now: Timestamp,
) -> (r: Reckoning)
    requires
        before.wf(),
        0 < balance <= u128::MAX,
        before.situation(balance, now).defined(),
        settled(before, after, response, balance, now),
    ensures
        r.follows_from(before, balance, now),
        r.coverage == before.supply.claims || (r.coverage < before.supply.claims && now.secs()
            < before.config.next_unbond) ==> {
            &&& r.commission == 0 ==> response.messages@.len() == 0
            &&& r.commission != 0 ==> response.messages@ == seq![
                SubMsg {
                    id: 0,
                    msg: CosmosMsg::Send {
                        to_address: before.config.treasury,
                        amount: Coin {
                            denom: before.supply.bond_denom,
                            amount: r.commission as u128,
                        },
                    },
                    reply_on: ReplyOn::Never,
                },
            ]
            &&& response.attributes@.len() == 0
            &&& forall|k: Seq<char>| #[trigger]
                stake_of(stake_map(after.bonded@), k) == stake_of(stake_map(before.bonded@), k)
            &&& before.balanced() ==> after.supply.total_bonded == before.supply.total_bonded
            &&& after.supply.total_unbonding == before.supply.total_unbonding - matured(
                before.unbonding@,
                now.secs(),
            )
            &&& after.supply.issued == before.supply.issued
            &&& after.supply.claims == before.supply.claims
            &&& after.supply.bond_denom == before.supply.bond_denom
            &&& after.config == before.config
            &&& after.stake_info == before.stake_info
            &&& after.tmp_balance == before.tmp_balance
            &&& after.unbonding@ == pending(before.unbonding@, now.secs())
        },
{
    let s = before.situation(balance, now);
    let base = settlement_reckons(before, after, response, balance, now);
    filtered_total(before.unbonding@, |e: UnbondingEntry| e.time > now.secs());
    if s.course() is Hold {
        if before.balanced() {
            settlement_moves_stake(before, after, response, balance, now);
        }
    }
    base
}

/// With nothing at hand, nothing but cleaning happens.
pub proof fn nothing_at_hand_settles_nothing(
    before: Hub,
    after: Hub,
    response: Response,
    now: Timestamp,
)
    requires
        before.wf(),
        settled(before, after, response, 0, now),
    ensures
        response.messages@.len() == 0,
        response.attributes@.len() == 0,
        after.is_cleaned(before, now.secs()),
{
}

/// Whether a settlement fails for want of a noted balance depends on these two alone.
pub proof fn settlement_needs_a_noted_balance(hub: Hub, balance: int, now: Timestamp)
    ensures
        hub.situation(balance, now).unnoted() <==> balance != 0 && hub.tmp_balance is None,
{
}

/// A settlement that leaves the stakes alone is possible as long as the sums fit, and
/// none is possible with less at hand than before the rewards came.
pub proof fn settlement_is_possible_when(hub: Hub, balance: int, now: Timestamp)
    ensures
        balance == 0 ==> hub.situation(balance, now).defined(),
        balance != 0 && hub.situation(balance, now).defined() ==> {
            &&& hub.tmp_balance is Some
            &&& hub.tmp_balance->Some_0 <= balance
        },
        hub.tmp_balance is Some && hub.tmp_balance->Some_0 <= balance && hub.situation(
            balance,
            now,
        ).course() is Hold && hub.situation(balance, now).coverage() <= u128::MAX
            && stakes_total(stake_map(hub.bonded@)) <= u128::MAX ==> hub.situation(
            balance,
            now,
        ).defined(),
{
    stake_map_finite(hub.bonded@);
    stakes_total_without_zeros(stake_map(hub.bonded@));
}

/// Which course a settlement takes: it delegates what is there beyond the claims,
/// undelegates what is missing once a release is permitted, and else does neither.
pub proof fn course_follows_from_the_coverage(
    hub: Hub,
    balance: int,
    now: Timestamp,
) -> (commission: int)
    requires
        hub.wf(),
        hub.tmp_balance is Some,
    ensures
        commission * ONE <= (balance - hub.tmp_balance->Some_0) * hub.config.commission.atomics < (
        commission + 1) * ONE,
        ({
            let s = hub.situation(balance, now);
            let coverage = balance - commission + (hub.supply.total_unbonding - matured(
                hub.unbonding@,
                now.secs(),
            ));
            &&& s.coverage() == coverage
            &&& s.course() is Delegate <==> coverage > hub.supply.claims
            &&& s.course() is Undelegate <==> coverage < hub.supply.claims
                && hub.config.next_unbond <= now.secs()
            &&& s.course() is Delegate ==> s.gap() == coverage - hub.supply.claims
            &&& s.course() is Undelegate ==> s.gap() == hub.supply.claims - coverage
        }),
{
    let s = hub.situation(balance, now);
    filtered_total(hub.unbonding@, |e: UnbondingEntry| e.time > now.secs());
    portions_are_rounded_down(s.rewards(), hub.config.commission);
    s.commission()
}

/// Two attributes for each validator, by its place in the list.
proof fn attributes_by_validator(validators: Seq<(String, Decimal)>)
    ensures
        validator_attributes(validators).len() == 2 * validators.len(),
        forall|i: int|
            0 <= i < validators.len() ==> {
                &&& validator_attributes(validators)[2 * i] == (
                    "validator_"@ + digits(i as nat),
                    (#[trigger] validators[i]).0@,
                )
                &&& validator_attributes(validators)[2 * i + 1] == (
                    "validator_"@ + digits(i as nat) + "_weight"@,
                    decimal_text(validators[i].1.atomics as nat),
                )
            },
    decreases validators.len(),
{
    if validators.len() > 0 {
        let front = validators.drop_last();
        let last = validators.len() - 1;
        attributes_by_validator(front);
        assert forall|i: int| 0 <= i < validators.len() implies {
            &&& validator_attributes(validators)[2 * i] == (
                "validator_"@ + digits(i as nat),
                (#[trigger] validators[i]).0@,
            )
            &&& validator_attributes(validators)[2 * i + 1] == (
                "validator_"@ + digits(i as nat) + "_weight"@,
                decimal_text(validators[i].1.atomics as nat),
            )
        } by {
            if i < last {
                assert(front[i] == validators[i]);
                assert(validator_attributes(validators)[2 * i] == validator_attributes(
                    front,
                )[2 * i]);
                assert(validator_attributes(validators)[2 * i + 1] == validator_attributes(
                    front,
                )[2 * i + 1]);
            }
        }
    }
}

/// A setup succeeds exactly if the chain knows the denomination and both addresses and
/// the settings are within their limits: a commission of more than nothing and at most
/// a half, weights of one together, a discount of less than a half, periods between an
/// hour and a year, and at least one release at a time. The first one that is not is
/// what the error tells.
pub proof fn setup_succeeds_when(
    msg: InstantiateMsg,
    contract_address: String,
    payload: Seq<u8>,
    bond_denom: HostResult<String>,
    treasury: HostResult<String>,
    owner: HostResult<String>,
    now: int,
    r: Result<(Hub, Response), ContractError>,
)
    requires
        instantiated(msg, contract_address, payload, bond_denom, treasury, owner, now, r),
    ensures
        ({
            let half: int = 500_000_000_000_000_000;
            let commission = 0 < msg.commission.atomics <= half;
            let weights = weights_total(msg.validators@) == 2 * half;
            let discount = msg.liquidity_discount.atomics < half;
            let epoch = 3600 <= msg.epoch_period <= 31_536_000;
            let unbond = 3600 <= msg.unbond_period <= 31_536_000;
            let count = msg.max_concurrent_unbondings > 0;
            let fails = |error: ContractError| r == Err::<(Hub, Response), ContractError>(error);
            let known = bond_denom is Ok;
            let sound = commission && weights && discount && epoch && unbond && count;
            &&& r is Ok <==> known && sound && treasury is Ok && owner is Ok
            &&& !known ==> fails(ContractError::Std(BasicError::Host(bond_denom->Err_0)))
            &&& known && !commission ==> fails(ContractError::InvalidCommission)
            &&& known && commission && !weights ==> fails(ContractError::InvalidValidatorWeights)
            &&& known && commission && weights && !discount ==> fails(
                ContractError::InvalidLiquidityDiscount,
            )
            &&& known && commission && weights && discount && !epoch ==> fails(
                ContractError::InvalidEpochPeriod,
            )
            &&& known && commission && weights && discount && epoch && !unbond ==> fails(
                ContractError::InvalidUnbondPeriod,
            )
            &&& known && commission && weights && discount && epoch && unbond && !count ==> fails(
                ContractError::InvalidMaxConcurrentUnbondings,
            )
            &&& known && sound && treasury is Err ==> fails(
                ContractError::Std(BasicError::Host(treasury->Err_0)),
            )
            &&& known && sound && treasury is Ok && owner is Err ==> fails(
                ContractError::Std(BasicError::Host(owner->Err_0)),
            )
        }),
{
}

/// The attributes hold the address and the weight of `validator` as the one at place
/// `i` of the list.
pub open spec fn validator_told(
    attributes: Seq<Attribute>,
    i: int,
    validator: (String, Decimal),
) -> bool {
    &&& attributes[2 * i].key@ == "validator_"@ + digits(i as nat)
    &&& attributes[2 * i].value@ == validator.0@
    &&& attributes[2 * i + 1].key@ == "validator_"@ + digits(i as nat) + "_weight"@
    &&& attributes[2 * i + 1].value@ == decimal_text(validator.1.atomics as nat)
}

/// What a setup stores and what it asks for.
pub proof fn setup_stores_the_settings(
    msg: InstantiateMsg,
    contract_address: String,
    payload: Seq<u8>,
    bond_denom: HostResult<String>,
    treasury: HostResult<String>,
    owner: HostResult<String>,
    now: int,
    r: Result<(Hub, Response), ContractError>,
)
    requires
        instantiated(msg, contract_address, payload, bond_denom, treasury, owner, now, r),
        r is Ok,
    ensures
        ({
            let hub = r->Ok_0.0;
            let response = r->Ok_0.1;
            let validators = msg.validators@;
            let attributes = response.attributes@;
            &&& hub.config.token_contract@ == ""@
            &&& hub.config.treasury == treasury->Ok_0
            &&& hub.config.owner == owner->Ok_0
            &&& hub.config.commission == msg.commission
            &&& hub.config.liquidity_discount == msg.liquidity_discount
            &&& hub.config.epoch_period == msg.epoch_period
            &&& hub.config.unbond_period == msg.unbond_period
            &&& hub.config.max_concurrent_unbondings == msg.max_concurrent_unbondings
            &&& hub.config.next_epoch == now + msg.epoch_period
            &&& hub.config.next_unbond == now + msg.epoch_period
            &&& hub.supply.bond_denom == bond_denom->Ok_0
            &&& hub.supply.issued == 0
            &&& hub.supply.total_bonded == 0
            &&& hub.supply.claims == 0
            &&& hub.supply.total_unbonding == 0
            &&& hub.stake_info.validators == msg.validators
            &&& hub.bonded@.len() == 0
            &&& hub.unbonding@.len() == 0
            &&& hub.tmp_balance is None
            // what is told
            &&& attributes.len() == 2 * validators.len()
            &&& forall|i: int|
                0 <= i < validators.len() ==> #[trigger] validator_told(
                    attributes,
                    i,
                    validators[i],
                )
            // what is asked
            &&& response.messages@.len() == 1
            &&& response.messages@[0].id == 1
            &&& response.messages@[0].reply_on == ReplyOn::Success
            &&& response.messages@[0].msg is Instantiate
            &&& response.messages@[0].msg->Instantiate_admin == Some(contract_address)
            &&& response.messages@[0].msg->code_id == msg.cw20_init.cw20_code_id
            &&& response.messages@[0].msg->label == msg.cw20_init.label
            &&& response.messages@[0].msg->Instantiate_msg@ == payload
        }),
{
    let validators = msg.validators@;
    let attributes = r->Ok_0.1.attributes@;
    attributes_by_validator(validators);
    assert(texts(attributes).len() == attributes.len());
    assert forall|i: int| 0 <= i < validators.len() implies #[trigger] validator_told(
        attributes,
        i,
        validators[i],
    ) by {
        let here = validator_attributes(validators);
        let v = validators[i];
        let even = 2 * i;
        let odd = 2 * i + 1;
        assert(texts(attributes) == here);
        assert(0 <= even < odd < attributes.len());
        assert(texts(attributes)[even] == (attributes[even].key@, attributes[even].value@));
        assert(texts(attributes)[odd] == (attributes[odd].key@, attributes[odd].value@));
        assert(here[2 * i] == ("validator_"@ + digits(i as nat), v.0@));
    }
}

/// What the share token is told of its setup is what the hub was told.
pub proof fn token_setup_is_told_in_full(token: TokenInitInfo)
    ensures
        token@.name == token.name@,
        token@.symbol == token.symbol@,
        token@.decimals == token.decimals,
        token@.initial_balances.len() == token.initial_balances@.len(),
        forall|i: int|
            0 <= i < token.initial_balances@.len() ==> #[trigger] token@.initial_balances[i] == (
                token.initial_balances@[i].0@,
                token.initial_balances@[i].1,
            ),
        token@.marketing is Some <==> token.marketing is Some,
        token.marketing is Some ==> {
            let told = token@.marketing->Some_0;
            let info = token.marketing->Some_0;
            &&& told.project is Some <==> info.project is Some
            &&& info.project is Some ==> told.project->Some_0 == info.project->Some_0@
            &&& told.description is Some <==> info.description is Some
            &&& info.description is Some ==> told.description->Some_0 == info.description->Some_0@
            &&& told.marketing is Some <==> info.marketing is Some
            &&& info.marketing is Some ==> told.marketing->Some_0 == info.marketing->Some_0@
            &&& told.logo is Some <==> info.logo is Some
            &&& info.logo is Some ==> told.logo->Some_0 == info.logo->Some_0@
        },
{
}

/// A failed withdrawal of rewards stops nothing: how it ended makes no difference. An
/// unknown message is refused under its own number, and a token that could not be
/// created is not taken for one that was.
pub proof fn replies_go_by_their_number(
    id: u64,
    result: ReplyResult,
    r: Result<ReplyStep, ContractError>,
)
    requires
        replied(id, result, r),
    ensures
        id == 2 ==> r == Ok::<ReplyStep, ContractError>(ReplyStep::Settle),
        id == 3 ==> r == Ok::<ReplyStep, ContractError>(ReplyStep::Ignore),
        id == 1 && result is Err ==> r == Err::<ReplyStep, ContractError>(
            ContractError::ParseReply(ParseReplyError::SubMsgFailure(result->Err_0)),
        ),
        id == 1 && result is Ok && result->Ok_0 is None ==> {
            &&& r matches Err(ContractError::ParseReply(ParseReplyError::ParseFailure(text)))
            &&& text@ == "Missing reply data"@
        },
        id == 1 && result is Ok && result->Ok_0 is Some ==> {
            match created_contract(result->Ok_0->Some_0@, usize::MAX as int) {
                Ok(address) => {
                    &&& r matches Ok(ReplyStep::RegisterToken { contract_address })
                    &&& contract_address@ == address
                },
                Err(ReplyFault::Complaint(complaint)) => {
                    &&& r matches Err(ContractError::ParseReply(ParseReplyError::ParseFailure(text)))
                    &&& text@ == complaint
                },
                Err(ReplyFault::BrokenUtf8(bytes)) => {
                    &&& r matches Err(ContractError::ParseReply(ParseReplyError::BrokenUtf8(broken)))
                    &&& broken@ == bytes
                },
            }
        },
        id == 0 || id > 3 ==> {
            &&& r matches Err(ContractError::Std(BasicError::GenericErr { msg }))
            &&& msg@ == "invalid reply id: "@ + digits(id as nat) + "; must be 1"@
        },
{
}

/// A migration takes the books over as they were, from an older version only and only
/// if nothing is being released, and changes the owner, and nothing else of the
/// settings, if there is a new one.
pub proof fn migration_takes_over_what_was(
    older: bool,
    old_supply: HostResult<OldSupply>,
    new_owner: Option<(HostResult<Config>, HostResult<String>)>,
    r: Result<Migrated, ContractError>,
)
    requires
        migrated(older, old_supply, new_owner, r),
    ensures
        r is Ok <==> {
            &&& older ==> old_supply is Ok && old_supply->Ok_0.unbonding@.len() == 0
            &&& new_owner is Some ==> new_owner->Some_0.0 is Ok && new_owner->Some_0.1 is Ok
        },
        older && old_supply is Err ==> r == Err::<Migrated, ContractError>(
            ContractError::Std(BasicError::Host(old_supply->Err_0)),
        ),
        older && old_supply is Ok && old_supply->Ok_0.unbonding@.len() > 0 ==> r == Err::<
            Migrated,
            ContractError,
        >(ContractError::MigrationFailed),
        r is Ok ==> {
            let made = r->Ok_0;
            let was = old_supply->Ok_0;
            &&& made.response.messages@.len() == 0
            &&& made.response.attributes@.len() == 0
            &&& made.books is Some <==> older
            &&& older ==> {
                let supply = made.books->Some_0.0;
                &&& supply.bond_denom == was.bond_denom
                &&& supply.issued == was.issued
                &&& supply.total_bonded == was.total_bonded
                &&& supply.claims == was.claims
                &&& supply.total_unbonding == was.total_unbonding
                &&& made.books->Some_0.1 == was.bonded
            }
            &&& made.config is Some <==> new_owner is Some
            &&& new_owner is Some ==> made.config->Some_0 == (Config {
                owner: new_owner->Some_0.1->Ok_0,
                ..new_owner->Some_0.0->Ok_0
            })
        },
{
}

/// The version from which on the books are kept as they are now.
pub proof fn books_are_separate_since()
    ensures
        crate::contract::separate_books() == "1.1.0"@,
{
}

/// A state can be worked with exactly if its settings can, no second has two entries,
/// and the queue holds no more than the books say is being released.
pub proof fn states_have_limits(hub: Hub)
    ensures
        hub.wf() <==> {
            &&& hub.config.wf()
            &&& forall|i: int, j: int|
                0 <= i < j < hub.unbonding@.len() ==> (#[trigger] hub.unbonding@[i]).time != (
                #[trigger] hub.unbonding@[j]).time
            &&& queue_total(hub.unbonding@) <= hub.supply.total_unbonding
        },
{
}

/// Each amount of a list is given to its own validator, one after the other, on top of
/// what it has; also if a validator is listed more than once.
pub proof fn amounts_are_given_one_by_one(
    stakes: Map<Seq<char>, int>,
    validators: Seq<(String, Decimal)>,
    amounts: Seq<int>,
    validator: (String, Decimal),
    amount: int,
    other: Seq<char>,
)
    requires
        amounts.len() == validators.len(),
    ensures
        moved(stakes, Seq::empty(), Seq::empty()) == stakes,
        ({
            let before = moved(stakes, validators, amounts);
            let after = moved(stakes, validators.push(validator), amounts.push(amount));
            &&& after.contains_key(validator.0@)
            &&& stake_of(after, validator.0@) == stake_of(before, validator.0@) + amount
            &&& other != validator.0@ ==> {
                &&& after.contains_key(other) == before.contains_key(other)
                &&& stake_of(after, other) == stake_of(before, other)
            }
        }),
{
    assert(validators.push(validator).drop_last() =~= validators);
    assert(amounts.push(amount).drop_last() =~= amounts);
}

/// A payment is a single amount of the right kind that is not zero. Else it is told
/// that there is none, that there are several kinds, or that it is the wrong one.
pub proof fn payments_are_single_amounts(funds: Seq<Coin>, denom: Seq<char>, error: PaymentError)
    ensures
        pays(funds, denom) <==> funds.len() == 1 && funds[0].amount > 0 && funds[0].denom@ == denom,
        payment_error(funds, denom, error) && funds.len() == 0 ==> error is NoFunds,
        payment_error(funds, denom, error) && funds.len() > 1 ==> error is MultipleDenoms,
        payment_error(funds, denom, error) && funds.len() == 1 && funds[0].amount == 0 ==> error
            is NoFunds,
        payment_error(funds, denom, error) && funds.len() == 1 && funds[0].amount > 0 ==> {
            &&& error matches PaymentError::MissingDenom(missing)
            &&& missing@ == denom
        },
{
}

} // verus!
