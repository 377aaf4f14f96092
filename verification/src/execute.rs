//! The calls that change the state of the hub.

use vstd::prelude::*;
use vstd::utf8::encode_utf8;

use crate::decimal::{decimal_text, Decimal, PERCENT};
use crate::error::{BasicError, ContractError, HostResult};
use crate::hub::{pending, Hub};
use crate::msg::ReceiveMsg;
use crate::payload::{burn_json, burn_payload, mint_json, mint_payload};
use crate::payment::{must_pay, payment_error, pays, MessageInfo};
use crate::reply::after_withdraw_rewards;
use crate::response::{plain, texts, Coin, CosmosMsg, ReplyOn, Response, SubMsg};
use crate::settlement::settled;
use crate::stakes::{ascending, entries_total, stake_map, stake_map_entries, sum_entries};
use crate::state::{next_beat, Config, Timestamp, NANOS};
use crate::supply::Supply;
use crate::text::{digits, number};

verus! {

/// Marks the last withdrawal of rewards, which is followed by the settlement.
pub const AFTER_WITHDRAW_REPLY: u64 = 2;

/// Marks all other withdrawals of rewards.
pub const AFTER_WITHDRAW_INTERMITTENT_REPLY: u64 = 3;

/// How stake is to be moved when the validators change.
#[derive(Clone, Debug, PartialEq, Eq)]
pub struct ValsetChange {
    pub messages: Vec<CosmosMsg>,
    pub new_balances: Vec<(String, u128)>,
}

/// Stake that the hub has with a validator, as the chain knows it.
#[derive(Clone, Debug, PartialEq, Eq)]
pub struct Delegation {
    pub validator: String,
    pub amount: Coin,
}

/// A right to native tokens from a given time on.
#[derive(Clone, Debug, PartialEq, Eq)]
pub struct NewClaim {
    pub owner: String,
    pub amount: u128,
    pub release_at: Timestamp,
}

/// `response` calls the share token with a body of the given text, and nothing else.
pub open spec fn calls_token(response: Response, config: Config, body: Seq<char>) -> bool {
    &&& response.messages@.len() == 1
    &&& response.messages@[0].id == 0
    &&& response.messages@[0].reply_on == ReplyOn::Never
    &&& response.messages@[0].msg matches CosmosMsg::Execute { contract_addr, msg }
    &&& contract_addr == config.token_contract
    &&& msg@ == encode_utf8(body)
    &&& response.attributes@.len() == 0
}

/// The messages of a list, none of whose outcomes is asked for.
pub open spec fn all_plain(messages: Seq<CosmosMsg>) -> Seq<SubMsg> {
    messages.map_values(|m: CosmosMsg| plain(m))
}

/// Appends the messages of a list.
fn add_messages(response: &mut Response, messages: Vec<CosmosMsg>)
    ensures
        final(response).messages@ == old(response).messages@ + all_plain(messages@),
        final(response).attributes == old(response).attributes,
{
    let mut rest: Vec<CosmosMsg> = messages;
    let ghost all = messages@;
    let ghost mut n: int = 0;
    assert(all.skip(0) =~= all);
    assert(response.messages@ =~= old(response).messages@ + all_plain(all).take(0));
    while rest.len() > 0
        invariant
            0 <= n <= all.len(),
            all == messages@,
            rest@ == all.skip(n),
            response.messages@ == old(response).messages@ + all_plain(all).take(n),
            response.attributes == old(response).attributes,
        decreases rest@.len(),
    {
        let msg = rest.remove(0);
        response.add_message(msg);
        proof {
            assert(rest@ =~= all.skip(n + 1));
            assert(msg == all[n]);
            assert(response.messages@ =~= old(response).messages@ + all_plain(all).take(n + 1));
            n = n + 1;
        }
    }
    assert(all_plain(all).take(n) =~= all_plain(all));
}

/// Replaces the validators, on behalf of the owner. If anything is bonded, it is
/// moved as `change` says.
pub fn set_validators(
    hub: &mut Hub,
    sender: &String,
    now: Timestamp,
    new_validators: Vec<(String, Decimal)>,
    change: Result<ValsetChange, ContractError>,
) -> (r: Result<Response, ContractError>)
    requires
        old(hub).wf(),
        sender@ == old(hub).config.owner@ && old(hub).supply.total_bonded != 0 ==> (
        change matches Ok(c) ==> entries_total(c.new_balances@) <= u128::MAX),
    ensures
        sender@ != old(hub).config.owner@ ==> r == Err::<Response, ContractError>(
            ContractError::Unauthorized,
        ),
        sender@ == old(hub).config.owner@ && old(hub).supply.total_bonded != 0 ==> (
        change matches Err(error) ==> r == Err::<Response, ContractError>(error)),
        sender@ == old(hub).config.owner@ && old(hub).supply.total_bonded != 0 ==> (
        change matches Ok(c) ==> {
            &&& r is Ok
            &&& r->Ok_0.messages@ == all_plain(c.messages@)
            &&& r->Ok_0.attributes@.len() == 0
            &&& final(hub).bonded == c.new_balances
            &&& final(hub).supply == (Supply {
                total_bonded: entries_total(c.new_balances@) as u128,
                ..old(hub).cleaned_supply(now.secs())
            })
            &&& ascending(c.new_balances@) ==> final(hub).balanced()
        }),
        sender@ == old(hub).config.owner@ && old(hub).supply.total_bonded == 0 ==> {
            &&& r is Ok
            &&& r->Ok_0.is_empty()
            &&& final(hub).bonded == old(hub).bonded
            &&& final(hub).supply == old(hub).cleaned_supply(now.secs())
            &&& old(hub).balanced() ==> final(hub).balanced()
        },
        r is Ok ==> {
            &&& final(hub).wf()
            &&& final(hub).stake_info.validators == new_validators
            &&& final(hub).config == old(hub).config
            &&& final(hub).unbonding@ == pending(old(hub).unbonding@, now.secs())
            &&& final(hub).tmp_balance == old(hub).tmp_balance
        },
        r is Err ==> *final(hub) == *old(hub),
{
    if *sender != hub.config.owner {
        return Err(ContractError::Unauthorized);
    }
    let mut response = Response::new();
    if hub.supply.total_bonded != 0 {
        let change = match change {
            Ok(change) => change,
            Err(error) => {
                return Err(error);
            },
        };
        add_messages(&mut response, change.messages);
        assert(response.messages@ =~= all_plain(change.messages@));
        let total_bonded = match sum_entries(&change.new_balances) {
            Some(total) => total,
            None => vstd::pervasive::unreached(),
        };
        proof {
            if ascending(change.new_balances@) {
                stake_map_entries(change.new_balances@);
            }
        }
        hub.clean(now);
        hub.bonded = change.new_balances;
        hub.supply.total_bonded = total_bonded;
    } else {
        hub.clean(now);
    }
    hub.stake_info.validators = new_validators;
    Ok(response)
}

/// Turns the native tokens that are sent along, and are part of `balance`, into
/// shares of the sender.
pub fn bond(
    hub: &mut Hub,
    info: &MessageInfo,
    balance: HostResult<u128>,
    now: Timestamp,
) -> (r: Result<Response, ContractError>)
    requires
        old(hub).wf(),
        pays(info.funds@, old(hub).supply.bond_denom@) ==> (balance matches Ok(balance) ==> {
            let paid = info.funds@[0].amount;
            &&& paid <= balance
            &&& old(hub).cleaned_supply(now.secs()).can_bond(paid as int, balance - paid)
        }),
    ensures
        pays(info.funds@, old(hub).supply.bond_denom@) ==> (balance matches Err(error) ==> r
            == Err::<Response, ContractError>(ContractError::Std(BasicError::Host(error)))),
        pays(info.funds@, old(hub).supply.bond_denom@) ==> (balance matches Ok(balance) ==> {
            let paid = info.funds@[0].amount as int;
            let supply = old(hub).cleaned_supply(now.secs());
            &&& r is Ok
            &&& calls_token(
                r->Ok_0,
                old(hub).config,
                mint_json(info.sender@, supply.bought(paid, balance - paid) as nat),
            )
            &&& final(hub).supply == supply.bonded(paid, balance - paid)
            &&& final(hub).wf()
            &&& old(hub).balanced() ==> final(hub).balanced()
            &&& final(hub).config == old(hub).config
            &&& final(hub).stake_info == old(hub).stake_info
            &&& final(hub).bonded == old(hub).bonded
            &&& final(hub).unbonding@ == pending(old(hub).unbonding@, now.secs())
            &&& final(hub).tmp_balance == old(hub).tmp_balance
        }),
        !pays(info.funds@, old(hub).supply.bond_denom@) ==> {
            &&& r matches Err(ContractError::Payment(error))
            &&& payment_error(info.funds@, old(hub).supply.bond_denom@, error)
        },
        r is Err ==> *final(hub) == *old(hub),
{
    let paid = match must_pay(&info.funds, hub.supply.bond_denom.as_str()) {
        Ok(paid) => paid,
        Err(error) => {
            return Err(ContractError::Payment(error));
        },
    };
    let balance = match balance {
        Ok(balance) => balance,
        Err(error) => {
            return Err(ContractError::Std(BasicError::Host(error)));
        },
    };
    hub.clean(now);
    let issue = match hub.supply.bond(paid, balance - paid) {
        Some(issue) => issue,
        None => vstd::pervasive::unreached(),
    };
    let msg = match mint_payload(info.sender.as_str(), issue) {
        Ok(msg) => msg,
        Err(error) => {
            return Err(ContractError::Std(BasicError::Host(error)));
        },
    };
    let mut response = Response::new();
    response.add_message(
        CosmosMsg::Execute { contract_addr: hub.config.token_contract.clone(), msg },
    );
    Ok(response)
}

impl Hub {
    /// From this second on a claim that is made now is paid: the next release of
    /// stake, which waits for the next epoch at least, and the time it takes.
    pub open spec fn claim_time(&self) -> int {
        let start = if self.config.next_unbond >= self.config.next_epoch {
            self.config.next_unbond
        } else {
            self.config.next_epoch
        };
        start + self.config.unbond_period
    }

    /// `amount` shares can be turned into a claim at `now`.
    pub open spec fn can_unbond(&self, amount: int, balance: int, now: int) -> bool {
        &&& self.cleaned_supply(now).can_unbond(amount, balance)
        &&& self.claim_time() * NANOS <= u64::MAX
    }

    /// Whether `amount` shares can be turned into a claim at `now`.
    pub fn unbond_possible(&self, amount: u128, balance: u128, now: Timestamp) -> (r: bool)
        requires
            self.wf(),
        ensures
            r == self.can_unbond(amount as int, balance as int, now.secs()),
    {
        let mut supply = self.current_supply(now);
        let start = if self.config.next_unbond >= self.config.next_epoch {
            self.config.next_unbond
        } else {
            self.config.next_epoch
        };
        supply.unbond(amount, balance).is_some() && match start.checked_add(
            self.config.unbond_period,
        ) {
            Some(seconds) => seconds.checked_mul(NANOS).is_some(),
            None => false,
        }
    }
}

/// The outcome of `unbond`, `before` being the state before it.
pub open spec fn unbonded(
    before: Hub,
    after: Hub,
    contract_sender: Seq<char>,
    amount: int,
    sender: HostResult<String>,
    balance: HostResult<u128>,
    now: int,
    r: Result<(Response, NewClaim), ContractError>,
) -> bool {
    let supply = before.cleaned_supply(now);
    if contract_sender != before.config.token_contract@ {
        &&& r == Err::<(Response, NewClaim), ContractError>(ContractError::InvalidToken)
        &&& after == before
    } else {
        match (balance, sender) {
            (Err(error), _) | (Ok(_), Err(error)) => {
                &&& r == Err::<(Response, NewClaim), ContractError>(
                    ContractError::Std(BasicError::Host(error)),
                )
                &&& after == before
            },
            (Ok(balance), Ok(owner)) => {
                &&& r is Ok
                &&& calls_token(r->Ok_0.0, before.config, burn_json(amount as nat))
                &&& r->Ok_0.1.owner == owner
                &&& r->Ok_0.1.amount == supply.worth(amount, balance as int)
                &&& r->Ok_0.1.release_at.nanos == before.claim_time() * NANOS
                &&& after.supply == supply.unbonded(amount, balance as int)
                &&& after.wf()
                &&& before.balanced() ==> after.balanced()
                &&& after.config == before.config
                &&& after.stake_info == before.stake_info
                &&& after.bonded == before.bonded
                &&& after.unbonding@ == pending(before.unbonding@, now)
                &&& after.tmp_balance == before.tmp_balance
            },
        }
    }
}

/// Turns `amount` shares, which the share token has handed over for `sender`, into
/// a claim, and destroys them.
pub fn unbond(
    hub: &mut Hub,
    contract_sender: &String,
    amount: u128,
    sender: HostResult<String>,
    balance: HostResult<u128>,
    now: Timestamp,
) -> (r: Result<(Response, NewClaim), ContractError>)
    requires
        old(hub).wf(),
        contract_sender@ == old(hub).config.token_contract@ && sender is Ok ==> (
        balance matches Ok(balance) ==> old(hub).can_unbond(
            amount as int,
            balance as int,
            now.secs(),
        )),
    ensures
        unbonded(
            *old(hub),
            *final(hub),
            contract_sender@,
            amount as int,
            sender,
            balance,
            now.secs(),
            r,
        ),
{
    if hub.config.token_contract != *contract_sender {
        return Err(ContractError::InvalidToken);
    }
    let balance = match balance {
        Ok(balance) => balance,
        Err(error) => {
            return Err(ContractError::Std(BasicError::Host(error)));
        },
    };
    let owner = match sender {
        Ok(owner) => owner,
        Err(error) => {
            return Err(ContractError::Std(BasicError::Host(error)));
        },
    };
    hub.clean(now);
    let native = match hub.supply.unbond(amount, balance) {
        Some(native) => native,
        None => vstd::pervasive::unreached(),
    };
    let start = if hub.config.next_unbond >= hub.config.next_epoch {
        hub.config.next_unbond
    } else {
        hub.config.next_epoch
    };
    let release_at = Timestamp::from_seconds(start + hub.config.unbond_period);
    let msg = match burn_payload(amount) {
        Ok(msg) => msg,
        Err(error) => {
            return Err(ContractError::Std(BasicError::Host(error)));
        },
    };
    let mut response = Response::new();
    response.add_message(
        CosmosMsg::Execute { contract_addr: hub.config.token_contract.clone(), msg },
    );
    Ok((response, NewClaim { owner, amount: native, release_at }))
}

/// Does what the holder of `amount` shares asks for by sending them to the hub.
pub fn handle_receive(
    hub: &mut Hub,
    contract_sender: &String,
    msg: HostResult<ReceiveMsg>,
    amount: u128,
    sender: HostResult<String>,
    balance: HostResult<u128>,
    now: Timestamp,
) -> (r: Result<(Response, NewClaim), ContractError>)
    requires
        old(hub).wf(),
        msg is Ok && contract_sender@ == old(hub).config.token_contract@ && sender is Ok ==> (
        balance matches Ok(balance) ==> old(hub).can_unbond(
            amount as int,
            balance as int,
            now.secs(),
        )),
    ensures
        match msg {
            Ok(ReceiveMsg::Unbond) => unbonded(
                *old(hub),
                *final(hub),
                contract_sender@,
                amount as int,
                sender,
                balance,
                now.secs(),
                r,
            ),
            Err(error) => r == Err::<(Response, NewClaim), ContractError>(
                ContractError::Std(BasicError::Host(error)),
            ) && *final(hub) == *old(hub),
        },
{
    match msg {
        Ok(ReceiveMsg::Unbond) => unbond(hub, contract_sender, amount, sender, balance, now),
        Err(error) => Err(ContractError::Std(BasicError::Host(error))),
    }
}

/// Pays `to_send`, which has been taken off the claims of `sender`.
pub fn claim(hub: &mut Hub, sender: &String, to_send: u128) -> (r: Result<Response, ContractError>)
    ensures
        to_send == 0 ==> r == Err::<Response, ContractError>(ContractError::NothingToClaim),
        to_send > old(hub).supply.claims ==> r == Err::<Response, ContractError>(
            ContractError::Std(
                BasicError::Underflow {
                    minuend: old(hub).supply.claims,
                    subtrahend: to_send,
                },
            ),
        ),
        0 < to_send <= old(hub).supply.claims ==> {
            &&& r is Ok
            &&& r->Ok_0.messages@ == seq![
                plain(
                    CosmosMsg::Send {
                        to_address: *sender,
                        amount: Coin {
                            denom: old(hub).supply.bond_denom,
                            amount: to_send,
                        },
                    },
                ),
            ]
            &&& texts(r->Ok_0.attributes@) == seq![
                ("action"@, "claim"@),
                ("from"@, sender@),
                ("amount"@, digits(to_send as nat)),
            ]
            &&& *final(hub) == (Hub {
                supply: Supply {
                    claims: (old(hub).supply.claims - to_send) as u128,
                    ..old(hub).supply
                },
                ..*old(hub)
            })
        },
        r is Err ==> *final(hub) == *old(hub),
        old(hub).wf() ==> final(hub).wf(),
        old(hub).balanced() ==> final(hub).balanced(),
{
    if to_send == 0 {
        return Err(ContractError::NothingToClaim);
    }
    match hub.supply.claim(to_send) {
        Ok(()) => {},
        Err(error) => {
            return Err(error);
        },
    }
    let mut response = Response::new();
    response.add_message(
        CosmosMsg::Send {
            to_address: sender.clone(),
            amount: Coin { denom: hub.supply.bond_denom.clone(), amount: to_send },
        },
    );
    response.add_attribute("action", "claim");
    response.add_attribute("from", sender.as_str());
    response.add_attribute("amount", number(to_send).as_str());
    assert(response.messages@ =~= seq![response.messages@[0]]);
    assert(texts(response.attributes@) =~= seq![
        ("action"@, "claim"@),
        ("from"@, sender@),
        ("amount"@, digits(to_send as nat)),
    ]);
    Ok(response)
}

/// The validators that have a weight.
pub open spec fn weighted(validators: Seq<(String, Decimal)>) -> Seq<(String, Decimal)> {
    validators.filter(|v: (String, Decimal)| v.1.atomics != 0)
}

/// One withdrawal of rewards per validator. The hub is called back after the last
/// one in any case, after the others only if they fail.
pub open spec fn withdrawals(validators: Seq<(String, Decimal)>) -> Seq<SubMsg> {
    Seq::new(
        validators.len(),
        |i: int|
            {
                let msg = CosmosMsg::WithdrawDelegatorReward { validator: validators[i].0 };
                if i == validators.len() - 1 {
                    SubMsg { id: AFTER_WITHDRAW_REPLY, msg, reply_on: ReplyOn::Always }
                } else {
                    SubMsg {
                        id: AFTER_WITHDRAW_INTERMITTENT_REPLY,
                        msg,
                        reply_on: ReplyOn::Error,
                    }
                }
            },
    )
}

impl Hub {
    /// The state at the beginning of a reinvestment.
    pub open spec fn epoch_started(&self, balance: int, now: int) -> Hub {
        Hub {
            config: Config {
                next_epoch: next_beat(
                    self.config.next_epoch as int,
                    self.config.epoch_period as int,
                    now,
                ) as u64,
                ..self.config
            },
            tmp_balance: Some(balance as u128),
            ..*self
        }
    }
}

/// The validators that have a weight.
fn weighted_validators(validators: &Vec<(String, Decimal)>) -> (r: Vec<String>)
    ensures
        r@ == weighted(validators@).map_values(|v: (String, Decimal)| v.0),
{
    let ghost has_weight = |v: (String, Decimal)| v.1.atomics != 0;
    let ghost address = |v: (String, Decimal)| v.0;
    let mut r: Vec<String> = Vec::new();
    let mut i: usize = 0;
    proof {
        reveal(Seq::filter);
        assert(validators@.take(0).filter(has_weight) =~= Seq::empty());
        assert(r@ =~= validators@.take(0).filter(has_weight).map_values(address));
    }
    while i < validators.len()
        invariant
            i <= validators@.len(),
            has_weight == (|v: (String, Decimal)| v.1.atomics != 0),
            address == (|v: (String, Decimal)| v.0),
            r@ == validators@.take(i as int).filter(has_weight).map_values(address),
        decreases validators@.len() - i,
    {
        proof {
            assert(validators@.take(i + 1) =~= validators@.take(i as int).push(
                validators@[i as int],
            ));
            validators@.take(i as int).lemma_filter_push(validators@[i as int], has_weight);
        }
        if validators[i].1.atomics != 0 {
            r.push(validators[i].0.clone());
        }
        assert(r@ =~= validators@.take(i + 1).filter(has_weight).map_values(address));
        i += 1;
    }
    assert(validators@.take(i as int) =~= validators@);
    r
}

/// Starts a new epoch: withdraws all rewards, after which they are settled. If
/// nothing is bonded, there are none, and the settlement follows at once.
pub fn reinvest(hub: &mut Hub, balance: HostResult<u128>, now: Timestamp) -> (r: Result<
    Response,
    ContractError,
>)
    requires
        old(hub).wf(),
        now.secs() >= old(hub).config.next_epoch && old(hub).supply.total_bonded == 0 ==> (
        balance matches Ok(balance) ==> old(hub).epoch_started(
            balance as int,
            now.secs(),
        ).situation(balance as int, now).defined()),
    ensures
        now.secs() < old(hub).config.next_epoch ==> r == Err::<Response, ContractError>(
            ContractError::EpochNotReached { next_epoch: old(hub).config.next_epoch },
        ),
        now.secs() >= old(hub).config.next_epoch ==> (balance matches Err(error) ==> r == Err::<
            Response,
            ContractError,
        >(ContractError::Std(BasicError::Host(error)))),
        now.secs() >= old(hub).config.next_epoch && old(hub).supply.total_bonded != 0 ==> (
        balance matches Ok(balance) ==> {
            &&& r is Ok
            &&& r->Ok_0.messages@ == withdrawals(weighted(old(hub).stake_info.validators@))
            &&& r->Ok_0.attributes@.len() == 0
            &&& *final(hub) == old(hub).epoch_started(balance as int, now.secs())
            &&& final(hub).wf()
        }),
        now.secs() >= old(hub).config.next_epoch && old(hub).supply.total_bonded == 0 ==> (
        balance matches Ok(balance) ==> {
            &&& r is Ok
            &&& settled(
                old(hub).epoch_started(balance as int, now.secs()),
                *final(hub),
                r->Ok_0,
                balance as int,
                now,
            )
            &&& final(hub).wf()
        }),
        r is Err ==> *final(hub) == *old(hub),
        old(hub).balanced() ==> final(hub).balanced(),
{
    let next_epoch = hub.config.next_epoch;
    match hub.config.next_epoch_after(now) {
        Ok(()) => {},
        Err(error) => {
            return Err(error);
        },
    }
    let balance = match balance {
        Ok(balance) => balance,
        Err(error) => {
            hub.config.next_epoch = next_epoch;
            return Err(ContractError::Std(BasicError::Host(error)));
        },
    };
    hub.tmp_balance = Some(balance);
    assert(*hub == old(hub).epoch_started(balance as int, now.secs()));
    if hub.supply.total_bonded == 0 {
        return after_withdraw_rewards(hub, balance, now);
    }
    let validators = weighted_validators(&hub.stake_info.validators);
    let mut response = Response::new();
    let ghost all = withdrawals(weighted(hub.stake_info.validators@));
    let mut i: usize = 0;
    assert(response.messages@ =~= all.take(0));
    while i < validators.len()
        invariant
            i <= validators@.len(),
            validators@ == weighted(hub.stake_info.validators@).map_values(
                |v: (String, Decimal)| v.0,
            ),
            all == withdrawals(weighted(hub.stake_info.validators@)),
            response.messages@ == all.take(i as int),
            response.attributes@.len() == 0,
        decreases validators@.len() - i,
    {
        let msg = CosmosMsg::WithdrawDelegatorReward { validator: validators[i].clone() };
        if i == validators.len() - 1 {
            response.add_submessage(
                SubMsg { id: AFTER_WITHDRAW_REPLY, msg, reply_on: ReplyOn::Always },
            );
        } else {
            response.add_submessage(
                SubMsg { id: AFTER_WITHDRAW_INTERMITTENT_REPLY, msg, reply_on: ReplyOn::Error },
            );
        }
        assert(response.messages@ =~= all.take(i + 1));
        i += 1;
    }
    assert(all.take(i as int) =~= all);
    Ok(response)
}

/// Changes the discount, on behalf of the owner.
pub fn update_liquidity_discount(config: &mut Config, sender: &String, new_discount: Decimal) -> (r:
    Result<Response, ContractError>)
    ensures
        sender@ != old(config).owner@ ==> r == Err::<Response, ContractError>(
            ContractError::Unauthorized,
        ),
        sender@ == old(config).owner@ && new_discount.atomics >= 50 * PERCENT ==> r == Err::<
            Response,
            ContractError,
        >(ContractError::InvalidLiquidityDiscount),
        sender@ == old(config).owner@ && new_discount.atomics < 50 * PERCENT ==> {
            &&& r is Ok
            &&& r->Ok_0.messages@.len() == 0
            &&& texts(r->Ok_0.attributes@) == seq![
                ("action"@, "update_liquidity_discount"@),
                ("liquidity_discount"@, decimal_text(new_discount.atomics as nat)),
            ]
            &&& *final(config) == (Config { liquidity_discount: new_discount, ..*old(config) })
        },
        r is Err ==> *final(config) == *old(config),
        old(config).wf() ==> final(config).wf(),
{
    if config.owner != *sender {
        return Err(ContractError::Unauthorized);
    }
    if new_discount.atomics >= Decimal::percent(50).atomics {
        return Err(ContractError::InvalidLiquidityDiscount);
    }
    config.liquidity_discount = new_discount;
    let mut response = Response::new();
    response.add_attribute("action", "update_liquidity_discount");
    response.add_attribute("liquidity_discount", new_discount.to_text().as_str());
    assert(texts(response.attributes@) =~= seq![
        ("action"@, "update_liquidity_discount"@),
        ("liquidity_discount"@, decimal_text(new_discount.atomics as nat)),
    ]);
    Ok(response)
}

/// The sum of all delegations of a list.
pub open spec fn delegations_total(delegations: Seq<Delegation>) -> int
    decreases delegations.len(),
{
    if delegations.len() == 0 {
        0
    } else {
        delegations_total(delegations.drop_last()) + delegations.last().amount.amount
    }
}

/// One undelegation for each delegation.
pub open spec fn undelegate_all(delegations: Seq<Delegation>) -> Seq<SubMsg> {
    delegations.map_values(
        |d: Delegation|
            plain(CosmosMsg::Undelegate { validator: d.validator, amount: d.amount }),
    )
}

/// No front of a list is more than the list.
proof fn delegations_front(delegations: Seq<Delegation>, n: int)
    requires
        0 <= n <= delegations.len(),
    ensures
        0 <= delegations_total(delegations.take(n)) <= delegations_total(delegations),
    decreases delegations.len(),
{
    if n == delegations.len() {
        assert(delegations.take(n) =~= delegations);
        if n > 0 {
            delegations_front(delegations.drop_last(), n - 1);
            assert(delegations.drop_last().take(n - 1) =~= delegations.drop_last());
        }
    } else {
        delegations_front(delegations.drop_last(), n);
        assert(delegations.drop_last().take(n) =~= delegations.take(n));
    }
}

/// Adds all delegations of a list to `total`; `None` if the sum does not fit.
pub fn add_delegated(total: u128, delegations: &Vec<Delegation>) -> (r: Option<u128>)
    ensures
        match r {
            Some(sum) => sum == total + delegations_total(delegations@),
            None => total + delegations_total(delegations@) > u128::MAX,
        },
{
    let mut sum: u128 = total;
    let mut i: usize = 0;
    assert(delegations@.take(0) =~= Seq::empty());
    while i < delegations.len()
        invariant
            i <= delegations@.len(),
            sum == total + delegations_total(delegations@.take(i as int)),
        decreases delegations@.len() - i,
    {
        proof {
            assert(delegations@.take(i + 1).drop_last() =~= delegations@.take(i as int));
            delegations_front(delegations@, i + 1);
        }
        match sum.checked_add(delegations[i].amount.amount) {
            Some(more) => {
                sum = more;
            },
            None => {
                return None;
            },
        }
        i += 1;
    }
    assert(delegations@.take(i as int) =~= delegations@);
    Some(sum)
}

/// Undelegates everything that the chain says is delegated, on behalf of the owner.
pub fn emergency_unbond_all(
    hub: &mut Hub,
    sender: &String,
    delegations: HostResult<Vec<Delegation>>,
) -> (r: Result<Response, ContractError>)
    requires
        sender@ == old(hub).config.owner@ ==> (delegations matches Ok(list) ==> old(
            hub,
        ).supply.total_unbonding + delegations_total(list@) <= u128::MAX),
    ensures
        sender@ != old(hub).config.owner@ ==> r == Err::<Response, ContractError>(
            ContractError::NotOwner,
        ),
        sender@ == old(hub).config.owner@ ==> (delegations matches Err(error) ==> r == Err::<
            Response,
            ContractError,
        >(ContractError::Std(BasicError::Host(error)))),
        sender@ == old(hub).config.owner@ ==> (delegations matches Ok(list) ==> list@.len() == 0
            ==> r == Err::<Response, ContractError>(ContractError::NoDelegationsFound)),
        sender@ == old(hub).config.owner@ ==> (delegations matches Ok(list) ==> list@.len() > 0
            ==> {
            let total = old(hub).supply.total_unbonding + delegations_total(list@);
            &&& r is Ok
            &&& r->Ok_0.messages@ == undelegate_all(list@)
            &&& texts(r->Ok_0.attributes@) == seq![
                ("action"@, "emergency_unbond_all"@),
                ("amount_unbonded"@, digits(total as nat)),
            ]
            &&& final(hub).supply == (Supply {
                total_bonded: 0,
                total_unbonding: total as u128,
                ..old(hub).supply
            })
            &&& final(hub).bonded@.len() == 0
            &&& final(hub).balanced()
            &&& final(hub).config == old(hub).config
            &&& final(hub).stake_info == old(hub).stake_info
            &&& final(hub).unbonding == old(hub).unbonding
            &&& final(hub).tmp_balance == old(hub).tmp_balance
        }),
        r is Err ==> *final(hub) == *old(hub),
        old(hub).wf() ==> final(hub).wf(),
{
    if *sender != hub.config.owner {
        return Err(ContractError::NotOwner);
    }
    let list = match delegations {
        Ok(list) => list,
        Err(error) => {
            return Err(ContractError::Std(BasicError::Host(error)));
        },
    };
    if list.len() == 0 {
        return Err(ContractError::NoDelegationsFound);
    }
    let total = match add_delegated(hub.supply.total_unbonding, &list) {
        Some(total) => total,
        None => vstd::pervasive::unreached(),
    };
    let mut response = Response::new();
    let ghost all = undelegate_all(list@);
    let mut i: usize = 0;
    assert(response.messages@ =~= all.take(0));
    while i < list.len()
        invariant
            i <= list@.len(),
            all == undelegate_all(list@),
            response.messages@ == all.take(i as int),
            texts(response.attributes@) == Seq::<(Seq<char>, Seq<char>)>::empty(),
        decreases list@.len() - i,
    {
        let delegation = &list[i];
        response.add_message(
            CosmosMsg::Undelegate {
                validator: delegation.validator.clone(),
                amount: Coin {
                    denom: delegation.amount.denom.clone(),
                    amount: delegation.amount.amount,
                },
            },
        );
        assert(response.messages@ =~= all.take(i + 1));
        i += 1;
    }
    assert(all.take(i as int) =~= all);
    proof {
        delegations_front(list@, 0);
        assert(list@.take(0) =~= Seq::empty());
    }
    hub.supply.total_unbonding = total;
    hub.supply.total_bonded = 0;
    hub.bonded = Vec::new();
    assert(stake_map(hub.bonded@).dom() =~= Set::empty());
    response.add_attribute("action", "emergency_unbond_all");
    response.add_attribute("amount_unbonded", number(total).as_str());
    assert(texts(response.attributes@) =~= seq![
        ("action"@, "emergency_unbond_all"@),
        ("amount_unbonded"@, digits(total as nat)),
    ]);
    Ok(response)
}

} // verus!
