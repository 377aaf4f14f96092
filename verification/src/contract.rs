//! The entry points of the hub.

use vstd::prelude::*;

use cosmwasm_std::{Reply, SubMsgResponse};

use crate::decimal::{decimal_text, Decimal, ONE, PERCENT};
use crate::error::{BasicError, ContractError, HostResult, ParseReplyError};
use crate::execute::{AFTER_WITHDRAW_INTERMITTENT_REPLY, AFTER_WITHDRAW_REPLY};
use crate::hub::{Hub, StakeInfo};
use crate::migration::OldSupply;
use crate::msg::{
    ConfigResponse, ExchangeRateResponse, ExecuteMsg, InstantiateMsg, QueryMsg, ReceivedShares,
    SupplyResponse, TargetValueResponse, ValidatorSetResponse,
};
use crate::payload::{token_json, token_payload};
use crate::query;
use crate::response::{plain, texts, CosmosMsg, ReplyOn, Response, SubMsg};
use crate::stakes::stake_map;
use crate::state::{Config, Timestamp, MAX_PERIOD, MIN_PERIOD};
use crate::supply::Supply;
use crate::text::{digits, number};

verus! {

/// Marks the creation of the share token.
pub const AFTER_TOKEN_CREATION_REPLY: u64 = 1;

/// The sum of all weights, in atomic units.
pub open spec fn weights_total(validators: Seq<(String, Decimal)>) -> int
    decreases validators.len(),
{
    if validators.len() == 0 {
        0
    } else {
        weights_total(validators.drop_last()) + validators.last().1.atomics
    }
}

/// No front of a list weighs more than the list.
proof fn weights_front(validators: Seq<(String, Decimal)>, n: int)
    requires
        0 <= n <= validators.len(),
    ensures
        0 <= weights_total(validators.take(n)) <= weights_total(validators),
    decreases validators.len(),
{
    if n == validators.len() {
        assert(validators.take(n) =~= validators);
        if n > 0 {
            weights_front(validators.drop_last(), n - 1);
            assert(validators.drop_last().take(n - 1) =~= validators.drop_last());
        }
    } else {
        weights_front(validators.drop_last(), n);
        assert(validators.drop_last().take(n) =~= validators.take(n));
    }
}

/// Adds up all weights; `None` if the sum does not fit.
pub fn sum_weights(validators: &Vec<(String, Decimal)>) -> (r: Option<Decimal>)
    ensures
        match r {
            Some(sum) => sum.atomics == weights_total(validators@),
            None => weights_total(validators@) > u128::MAX,
        },
{
    let mut sum: u128 = 0;
    let mut i: usize = 0;
    assert(validators@.take(0) =~= Seq::empty());
    while i < validators.len()
        invariant
            i <= validators@.len(),
            sum == weights_total(validators@.take(i as int)),
        decreases validators@.len() - i,
    {
        proof {
            assert(validators@.take(i + 1).drop_last() =~= validators@.take(i as int));
            weights_front(validators@, i + 1);
        }
        match sum.checked_add(validators[i].1.atomics) {
            Some(more) => {
                sum = more;
            },
            None => {
                return None;
            },
        }
        i += 1;
    }
    assert(validators@.take(i as int) =~= validators@);
    Some(Decimal { atomics: sum })
}

/// What is wrong with a setup: the first of its rules that does not hold.
pub open spec fn setup_error(msg: InstantiateMsg) -> Option<ContractError> {
    if msg.commission.atomics == 0 || msg.commission.atomics > 50 * PERCENT {
        Some(ContractError::InvalidCommission)
    } else if weights_total(msg.validators@) != ONE {
        Some(ContractError::InvalidValidatorWeights)
    } else if msg.liquidity_discount.atomics >= 50 * PERCENT {
        Some(ContractError::InvalidLiquidityDiscount)
    } else if !(MIN_PERIOD <= msg.epoch_period <= MAX_PERIOD) {
        Some(ContractError::InvalidEpochPeriod)
    } else if !(MIN_PERIOD <= msg.unbond_period <= MAX_PERIOD) {
        Some(ContractError::InvalidUnbondPeriod)
    } else if msg.max_concurrent_unbondings == 0 {
        Some(ContractError::InvalidMaxConcurrentUnbondings)
    } else {
        None
    }
}

/// `hub` has just been set up.
pub open spec fn set_up(
    hub: Hub,
    msg: InstantiateMsg,
    bond_denom: String,
    treasury: String,
    owner: String,
    now: int,
) -> bool {
    &&& hub.config.token_contract@ == ""@
    &&& hub.config.treasury == treasury
    &&& hub.config.commission == msg.commission
    &&& hub.config.epoch_period == msg.epoch_period
    &&& hub.config.unbond_period == msg.unbond_period
    &&& hub.config.owner == owner
    &&& hub.config.next_epoch == now + msg.epoch_period
    &&& hub.config.next_unbond == now + msg.epoch_period
    &&& hub.config.max_concurrent_unbondings == msg.max_concurrent_unbondings
    &&& hub.config.liquidity_discount == msg.liquidity_discount
    &&& hub.supply == (Supply {
        bond_denom,
        issued: 0,
        total_bonded: 0,
        claims: 0,
        total_unbonding: 0,
    })
    &&& hub.stake_info.validators == msg.validators
    &&& hub.bonded@.len() == 0
    &&& hub.unbonding@.len() == 0
    &&& hub.tmp_balance is None
}

/// Two attributes for each validator: its address and its weight.
pub open spec fn validator_attributes(validators: Seq<(String, Decimal)>) -> Seq<
    (Seq<char>, Seq<char>),
>
    decreases validators.len(),
{
    if validators.len() == 0 {
        Seq::empty()
    } else {
        let i = (validators.len() - 1) as nat;
        validator_attributes(validators.drop_last()).push(
            ("validator_"@ + digits(i), validators.last().0@),
        ).push(
            (
                "validator_"@ + digits(i) + "_weight"@,
                decimal_text(validators.last().1.atomics as nat),
            ),
        )
    }
}

/// The outcome of a setup whose share token is created with the body `payload`.
pub open spec fn instantiated(
    msg: InstantiateMsg,
    contract_address: String,
    payload: Seq<u8>,
    bond_denom: HostResult<String>,
    treasury: HostResult<String>,
    owner: HostResult<String>,
    now: int,
    r: Result<(Hub, Response), ContractError>,
) -> bool {
    match (bond_denom, setup_error(msg), treasury, owner) {
        (Err(error), _, _, _) => r == Err::<(Hub, Response), ContractError>(
            ContractError::Std(BasicError::Host(error)),
        ),
        (Ok(_), Some(error), _, _) => r == Err::<(Hub, Response), ContractError>(error),
        (Ok(_), None, Err(error), _) | (Ok(_), None, Ok(_), Err(error)) => r == Err::<
            (Hub, Response),
            ContractError,
        >(ContractError::Std(BasicError::Host(error))),
        (Ok(bond_denom), None, Ok(treasury), Ok(owner)) => {
            &&& r is Ok
            &&& set_up(r->Ok_0.0, msg, bond_denom, treasury, owner, now)
            &&& r->Ok_0.0.wf()
            &&& r->Ok_0.0.balanced()
            &&& texts(r->Ok_0.1.attributes@) == validator_attributes(msg.validators@)
            &&& r->Ok_0.1.messages@.len() == 1
            &&& r->Ok_0.1.messages@[0].id == AFTER_TOKEN_CREATION_REPLY
            &&& r->Ok_0.1.messages@[0].reply_on == ReplyOn::Success
            &&& r->Ok_0.1.messages@[0].msg matches CosmosMsg::Instantiate {
                admin,
                code_id,
                msg: body,
                label,
            }
            &&& admin == Some(contract_address)
            &&& code_id == msg.cw20_init.cw20_code_id
            &&& body@ == payload
            &&& label == msg.cw20_init.label
        },
    }
}

/// Adds two attributes for each validator.
fn add_validator_attributes(response: &mut Response, validators: &Vec<(String, Decimal)>)
    requires
        texts(old(response).attributes@) == Seq::<(Seq<char>, Seq<char>)>::empty(),
    ensures
        final(response).messages == old(response).messages,
        texts(final(response).attributes@) == validator_attributes(validators@),
{
    let mut i: usize = 0;
    assert(validators@.take(0) =~= Seq::empty());
    while i < validators.len()
        invariant
            i <= validators@.len(),
            response.messages == old(response).messages,
            texts(response.attributes@) == validator_attributes(validators@.take(i as int)),
        decreases validators@.len() - i,
    {
        let key = String::from_str("validator_").concat(number(i as u128).as_str());
        response.add_attribute(key.as_str(), validators[i].0.as_str());
        let weight_key = key.concat("_weight");
        response.add_attribute(weight_key.as_str(), validators[i].1.to_text().as_str());
        assert(validators@.take(i + 1).drop_last() =~= validators@.take(i as int));
        i += 1;
    }
    assert(validators@.take(i as int) =~= validators@);
}

/// Sets up the hub and asks for the creation of the share token, with the body
/// `payload`. The denomination and the addresses are what the chain said of them.
pub fn instantiate_with(
    msg: InstantiateMsg,
    contract_address: &String,
    payload: Vec<u8>,
    bond_denom: HostResult<String>,
    treasury: HostResult<String>,
    owner: HostResult<String>,
    now: Timestamp,
) -> (r: Result<(Hub, Response), ContractError>)
    requires
        bond_denom is Ok && 0 < msg.commission.atomics <= 50 * PERCENT ==> weights_total(
            msg.validators@,
        ) <= u128::MAX,
    ensures
        instantiated(
            msg,
            *contract_address,
            payload@,
            bond_denom,
            treasury,
            owner,
            now.secs(),
            r,
        ),
{
    let bond_denom = match bond_denom {
        Ok(bond_denom) => bond_denom,
        Err(error) => {
            return Err(ContractError::Std(BasicError::Host(error)));
        },
    };
    if msg.commission.atomics == 0 || msg.commission.atomics > Decimal::percent(50).atomics {
        return Err(ContractError::InvalidCommission);
    }
    let total_weight = match sum_weights(&msg.validators) {
        Some(total_weight) => total_weight,
        None => vstd::pervasive::unreached(),
    };
    if total_weight.atomics != Decimal::one().atomics {
        return Err(ContractError::InvalidValidatorWeights);
    }
    if msg.liquidity_discount.atomics >= Decimal::percent(50).atomics {
        return Err(ContractError::InvalidLiquidityDiscount);
    }
    let mut response = Response::new();
    add_validator_attributes(&mut response, &msg.validators);
    if msg.epoch_period < MIN_PERIOD || msg.epoch_period > MAX_PERIOD {
        return Err(ContractError::InvalidEpochPeriod);
    }
    if msg.unbond_period < MIN_PERIOD || msg.unbond_period > MAX_PERIOD {
        return Err(ContractError::InvalidUnbondPeriod);
    }
    if msg.max_concurrent_unbondings == 0 {
        return Err(ContractError::InvalidMaxConcurrentUnbondings);
    }
    let treasury = match treasury {
        Ok(treasury) => treasury,
        Err(error) => {
            return Err(ContractError::Std(BasicError::Host(error)));
        },
    };
    let owner = match owner {
        Ok(owner) => owner,
        Err(error) => {
            return Err(ContractError::Std(BasicError::Host(error)));
        },
    };
    let next_epoch = now.seconds() + msg.epoch_period;
    let config = Config {
        token_contract: String::from_str(""),
        treasury,
        commission: msg.commission,
        epoch_period: msg.epoch_period,
        unbond_period: msg.unbond_period,
        owner,
        next_epoch,
        next_unbond: next_epoch,
        max_concurrent_unbondings: msg.max_concurrent_unbondings,
        liquidity_discount: msg.liquidity_discount,
    };
    response.add_submessage(
        SubMsg {
            id: AFTER_TOKEN_CREATION_REPLY,
            msg: CosmosMsg::Instantiate {
                admin: Some(contract_address.clone()),
                code_id: msg.cw20_init.cw20_code_id,
                msg: payload,
                label: msg.cw20_init.label,
            },
            reply_on: ReplyOn::Success,
        },
    );
    let hub = Hub {
        config,
        supply: Supply::new(bond_denom),
        stake_info: StakeInfo { validators: msg.validators },
        bonded: Vec::new(),
        unbonding: Vec::new(),
        tmp_balance: None,
    };
    assert(stake_map(hub.bonded@).dom() =~= Set::empty());
    Ok((hub, response))
}

/// Sets up the hub and asks for the creation of the share token, which the hub at
/// `contract_address` alone may issue, without limit.
pub fn instantiate(
    msg: InstantiateMsg,
    contract_address: &String,
    bond_denom: HostResult<String>,
    treasury: HostResult<String>,
    owner: HostResult<String>,
    now: Timestamp,
) -> (r: Result<(Hub, Response), ContractError>)
    requires
        bond_denom is Ok && 0 < msg.commission.atomics <= 50 * PERCENT ==> weights_total(
            msg.validators@,
        ) <= u128::MAX,
    ensures
        instantiated(
            msg,
            *contract_address,
            token_json(msg.cw20_init@, contract_address@, None),
            bond_denom,
            treasury,
            owner,
            now.secs(),
            r,
        ),
{
    match token_payload(&msg.cw20_init, contract_address.clone(), None) {
        Ok(payload) => instantiate_with(
            msg,
            contract_address,
            payload,
            bond_denom,
            treasury,
            owner,
            now,
        ),
        Err(error) => Err(ContractError::Std(BasicError::Host(error))),
    }
}

/// What a permitted request leads to.
#[derive(Clone, Debug, PartialEq, Eq)]
pub enum Step {
    /// Shares have come in: see [`crate::execute::handle_receive`].
    Receive(ReceivedShares),
    /// Claims are to be paid: see [`crate::execute::claim`].
    Claim,
    /// All stake is to be released: see [`crate::execute::emergency_unbond_all`].
    EmergencyUnbondAll,
}

/// Decides which requests are permitted. Nobody can join the pool any more, and
/// nothing is reinvested or changed.
pub fn execute(msg: ExecuteMsg) -> (r: Result<Step, ContractError>)
    ensures
        match msg {
            ExecuteMsg::Receive(received) => r == Ok::<Step, ContractError>(
                Step::Receive(received),
            ),
            ExecuteMsg::Claim => r == Ok::<Step, ContractError>(Step::Claim),
            ExecuteMsg::EmergencyUnbondAll => r == Ok::<Step, ContractError>(
                Step::EmergencyUnbondAll,
            ),
            ExecuteMsg::Bond => r == Err::<Step, ContractError>(ContractError::BondingDisabled),
            ExecuteMsg::Reinvest
            | ExecuteMsg::SetValidators { .. }
            | ExecuteMsg::UpdateLiquidityDiscount { .. } => r == Err::<Step, ContractError>(
                ContractError::Unauthorized,
            ),
        },
{
    match msg {
        ExecuteMsg::Receive(received) => Ok(Step::Receive(received)),
        ExecuteMsg::Claim => Ok(Step::Claim),
        ExecuteMsg::Bond => Err(ContractError::BondingDisabled),
        ExecuteMsg::EmergencyUnbondAll => Ok(Step::EmergencyUnbondAll),
        _ => Err(ContractError::Unauthorized),
    }
}

/// How a submessage ended: with the data it returned, if any, or with an error.
pub type ReplyResult = Result<Option<Vec<u8>>, String>;

/// Why the data that a creation returned cannot be read.
pub enum ReplyFault {
    /// The text of the complaint.
    Complaint(Seq<char>),
    /// What should be the address is not UTF-8.
    BrokenUtf8(Seq<u8>),
}

/// The address of a new contract, as `parse_reply_instantiate_data` reads it from the
/// data that its creation returned, on a machine whose largest index is `index_max`;
/// or why that is not possible.
pub uninterp spec fn created_contract(data: Seq<u8>, index_max: int) -> Result<
    Seq<char>,
    ReplyFault,
>;

/// The address of a new contract, or why there is none, is `r`.
pub open spec fn reply_read(
    parsed: Result<Seq<char>, ReplyFault>,
    r: Result<String, ParseReplyError>,
) -> bool {
    match parsed {
        Ok(address) => r is Ok && r->Ok_0@ == address,
        Err(ReplyFault::Complaint(text)) => {
            &&& r matches Err(ParseReplyError::ParseFailure(complaint))
            &&& complaint@ == text
        },
        Err(ReplyFault::BrokenUtf8(bytes)) => {
            &&& r matches Err(ParseReplyError::BrokenUtf8(broken))
            &&& broken@ == bytes
        },
    }
}

/// `parse_reply_instantiate_data` of `cw-utils`: a failed submessage and missing data
/// are reported as such. Otherwise the outcome depends on the data, and on the size of
/// an index alone, to which an encoded length is cut. Of an address that is not UTF-8
/// the bytes are kept.
#[verifier::external_body]
fn parse_reply_instantiate_data(result: ReplyResult) -> (r: Result<String, ParseReplyError>)
    ensures
        match result {
            Err(failure) => r == Err::<String, ParseReplyError>(
                ParseReplyError::SubMsgFailure(failure),
            ),
            Ok(None) => reply_read(
                Err(ReplyFault::Complaint("Missing reply data"@)),
                r,
            ),
            Ok(Some(data)) => reply_read(created_contract(data@, usize::MAX as int), r),
        },
{
    let answer = |data: Option<Vec<u8>>| SubMsgResponse { events: vec![], data: data.map(Into::into) };
    let reply = Reply { id: 0, result: result.map(answer).into() };
    match cw_utils::parse_reply_instantiate_data(reply) {
        Ok(created) => Ok(created.contract_address),
        Err(cw_utils::ParseReplyError::SubMsgFailure(text)) => Err(ParseReplyError::SubMsgFailure(text)),
        Err(cw_utils::ParseReplyError::ParseFailure(text)) => Err(ParseReplyError::ParseFailure(text)),
        Err(cw_utils::ParseReplyError::BrokenUtf8(error)) => Err(ParseReplyError::BrokenUtf8(error.into_bytes())),
    }
}

/// What the end of a submessage leads to.
#[derive(Clone, Debug, PartialEq, Eq)]
pub enum ReplyStep {
    /// The share token has been created: see [`register_token`].
    RegisterToken { contract_address: String },
    /// Nothing.
    Ignore,
    /// The rewards have been withdrawn: see [`crate::reply::after_withdraw_rewards`].
    Settle,
}

/// Why a submessage is unknown.
pub open spec fn unknown_reply(id: u64, error: ContractError) -> bool {
    &&& error matches ContractError::Std(BasicError::GenericErr { msg })
    &&& msg@ == "invalid reply id: "@ + digits(id as nat) + "; must be 1"@
}

/// Decides what the end of submessage `id` leads to, if `created` is what the
/// creation of the share token came to.
pub fn reply_with(id: u64, created: Result<String, ParseReplyError>) -> (r: Result<
    ReplyStep,
    ContractError,
>)
    ensures
        id == AFTER_TOKEN_CREATION_REPLY ==> match created {
            Ok(contract_address) => r == Ok::<ReplyStep, ContractError>(
                ReplyStep::RegisterToken { contract_address },
            ),
            Err(error) => r == Err::<ReplyStep, ContractError>(ContractError::ParseReply(error)),
        },
        id == AFTER_WITHDRAW_REPLY ==> r == Ok::<ReplyStep, ContractError>(ReplyStep::Settle),
        id == AFTER_WITHDRAW_INTERMITTENT_REPLY ==> r == Ok::<ReplyStep, ContractError>(
            ReplyStep::Ignore,
        ),
        id != AFTER_TOKEN_CREATION_REPLY && id != AFTER_WITHDRAW_REPLY && id
            != AFTER_WITHDRAW_INTERMITTENT_REPLY ==> r is Err && unknown_reply(id, r->Err_0),
{
    if id == AFTER_TOKEN_CREATION_REPLY {
        match created {
            Ok(contract_address) => Ok(ReplyStep::RegisterToken { contract_address }),
            Err(error) => Err(ContractError::ParseReply(error)),
        }
    } else if id == AFTER_WITHDRAW_INTERMITTENT_REPLY {
        Ok(ReplyStep::Ignore)
    } else if id == AFTER_WITHDRAW_REPLY {
        Ok(ReplyStep::Settle)
    } else {
        let msg = String::from_str("invalid reply id: ").concat(
            number(id as u128).as_str(),
        ).concat("; must be 1");
        Err(ContractError::Std(BasicError::GenericErr { msg }))
    }
}

/// The outcome of [`reply`].
pub open spec fn replied(
    id: u64,
    result: ReplyResult,
    r: Result<ReplyStep, ContractError>,
) -> bool {
    if id == AFTER_TOKEN_CREATION_REPLY {
        match result {
            Err(failure) => r == Err::<ReplyStep, ContractError>(
                ContractError::ParseReply(ParseReplyError::SubMsgFailure(failure)),
            ),
            Ok(data) => {
                let parsed = match data {
                    None => Err(ReplyFault::Complaint("Missing reply data"@)),
                    Some(data) => created_contract(data@, usize::MAX as int),
                };
                match parsed {
                    Ok(address) => {
                        &&& r matches Ok(ReplyStep::RegisterToken { contract_address })
                        &&& contract_address@ == address
                    },
                    Err(_) => {
                        &&& r matches Err(ContractError::ParseReply(error))
                        &&& reply_read(parsed, Err(error))
                    },
                }
            },
        }
    } else if id == AFTER_WITHDRAW_REPLY {
        r == Ok::<ReplyStep, ContractError>(ReplyStep::Settle)
    } else if id == AFTER_WITHDRAW_INTERMITTENT_REPLY {
        r == Ok::<ReplyStep, ContractError>(ReplyStep::Ignore)
    } else {
        r is Err && unknown_reply(id, r->Err_0)
    }
}

/// Decides what the end of submessage `id` leads to. Whether a withdrawal of rewards
/// has failed makes no difference.
pub fn reply(id: u64, result: ReplyResult) -> (r: Result<ReplyStep, ContractError>)
    ensures
        replied(id, result, r),
{
    reply_with(id, parse_reply_instantiate_data(result))
}

/// Makes the contract that has been created at `contract_address` the share token,
/// and hands it over to the administrator of the hub. The addresses are what the
/// chain said of them.
pub fn register_token(
    config: &mut Config,
    contract_address: String,
    admin: HostResult<String>,
    token_contract: HostResult<String>,
) -> (r: Result<Response, ContractError>)
    ensures
        match (admin, token_contract) {
            (Err(error), _) | (Ok(_), Err(error)) => {
                &&& r == Err::<Response, ContractError>(
                    ContractError::Std(BasicError::Host(error)),
                )
                &&& *final(config) == *old(config)
            },
            (Ok(admin), Ok(token_contract)) => {
                &&& r is Ok
                &&& r->Ok_0.messages@ == seq![
                    plain(CosmosMsg::UpdateAdmin { contract_addr: contract_address, admin }),
                ]
                &&& r->Ok_0.attributes@.len() == 0
                &&& *final(config) == (Config { token_contract, ..*old(config) })
            },
        },
{
    let admin = match admin {
        Ok(admin) => admin,
        Err(error) => {
            return Err(ContractError::Std(BasicError::Host(error)));
        },
    };
    let token_contract = match token_contract {
        Ok(token_contract) => token_contract,
        Err(error) => {
            return Err(ContractError::Std(BasicError::Host(error)));
        },
    };
    config.token_contract = token_contract;
    let mut response = Response::new();
    response.add_message(CosmosMsg::UpdateAdmin { contract_addr: contract_address, admin });
    assert(response.messages@ =~= seq![response.messages@[0]]);
    Ok(response)
}

/// An answer to a question.
#[derive(Clone, Debug, PartialEq, Eq)]
pub enum QueryResponse {
    Config(ConfigResponse),
    /// The claims of `address`, which are kept apart from the state of the hub.
    Claims { address: String },
    ValidatorSet(ValidatorSetResponse),
    Supply(SupplyResponse),
    ExchangeRate(ExchangeRateResponse),
    TargetValue(TargetValueResponse),
}

/// Answers a question about the hub, which has `balance` at hand. When it last
/// reinvested is not known.
pub fn query(hub: Hub, msg: QueryMsg, balance: HostResult<u128>, now: Timestamp) -> (r: HostResult<
    QueryResponse,
>)
    requires
        msg !is LastReinvest,
        msg is ExchangeRate || msg is TargetValue ==> (balance matches Ok(balance) ==> hub.wf()
            && hub.priced(balance as int, now.secs())),
    ensures
        match msg {
            QueryMsg::Config => r == HostResult::Ok(
                QueryResponse::Config(query::config_info(hub.config)),
            ),
            QueryMsg::Claims { address } => r == HostResult::Ok(QueryResponse::Claims { address }),
            QueryMsg::ValidatorSet => r == HostResult::Ok(
                QueryResponse::ValidatorSet(
                    ValidatorSetResponse { validator_set: hub.stake_info.validators },
                ),
            ),
            QueryMsg::LastReinvest => true,
            QueryMsg::Supply => r == HostResult::Ok(
                QueryResponse::Supply(SupplyResponse { supply: query::supply_info(hub.supply) }),
            ),
            QueryMsg::ExchangeRate => match balance {
                Err(error) => r == HostResult::<QueryResponse>::Err(error),
                Ok(balance) => r == HostResult::Ok(
                    QueryResponse::ExchangeRate(
                        ExchangeRateResponse {
                            exchange_rate: hub.rate(balance as int, now.secs()),
                        },
                    ),
                ),
            },
            QueryMsg::TargetValue => match balance {
                Err(error) => r == HostResult::<QueryResponse>::Err(error),
                Ok(balance) => r == HostResult::Ok(
                    QueryResponse::TargetValue(
                        TargetValueResponse {
                            target_value: hub.discounted(hub.rate(balance as int, now.secs())),
                        },
                    ),
                ),
            },
        },
{
    match msg {
        QueryMsg::Config => Ok(QueryResponse::Config(query::config(&hub.config))),
        QueryMsg::Claims { address } => Ok(QueryResponse::Claims { address }),
        QueryMsg::ValidatorSet => Ok(
            QueryResponse::ValidatorSet(
                ValidatorSetResponse { validator_set: hub.stake_info.validators },
            ),
        ),
        QueryMsg::LastReinvest => vstd::pervasive::unreached(),
        QueryMsg::Supply => Ok(QueryResponse::Supply(query::supply(&hub.supply))),
        QueryMsg::ExchangeRate => match balance {
            Ok(balance) => Ok(
                QueryResponse::ExchangeRate(query::exchange_rate(&hub, balance, now)),
            ),
            Err(error) => Err(error),
        },
        QueryMsg::TargetValue => match balance {
            Ok(balance) => Ok(
                QueryResponse::TargetValue(query::target_value(&hub, balance, now)),
            ),
            Err(error) => Err(error),
        },
    }
}

/// Whether `version` comes before `release` by the rules of `semver`, or why one of
/// them is not a version.
pub uninterp spec fn version_precedes(version: Seq<char>, release: Seq<char>) -> Result<
    bool,
    Seq<char>,
>;

/// `Version::parse` of `semver`, and `<` between the two versions: the outcome
/// depends on the two texts alone, and no version comes before itself.
#[verifier::external_body]
fn precedes_release(version: &str, release: &str) -> (r: Result<bool, String>)
    ensures
        match r {
            Ok(older) => version_precedes(version@, release@) == Ok::<bool, Seq<char>>(older) && (
            version@ == release@ ==> !older),
            Err(text) => version_precedes(version@, release@) == Err::<bool, Seq<char>>(text@),
        },
{
    let version = semver::Version::parse(version).map_err(|error| error.to_string())?;
    let release = semver::Version::parse(release).map_err(|error| error.to_string())?;
    Ok(version < release)
}

/// What a migration leads to.
#[derive(Clone, Debug, PartialEq, Eq)]
pub struct Migrated {
    /// The books and the stakes, if they were kept differently before.
    pub books: Option<(Supply, Vec<(String, u128)>)>,
    /// The settings, if they have changed.
    pub config: Option<Config>,
    pub response: Response,
}

/// The books of an earlier version as they are kept now.
pub open spec fn new_supply(old_supply: OldSupply) -> Supply {
    Supply {
        bond_denom: old_supply.bond_denom,
        issued: old_supply.issued,
        total_bonded: old_supply.total_bonded,
        claims: old_supply.claims,
        total_unbonding: old_supply.total_unbonding,
    }
}

/// The outcome of a migration from a version that kept the books differently, if
/// `older`. A new owner comes with the settings to be changed.
pub open spec fn migrated(
    older: bool,
    old_supply: HostResult<OldSupply>,
    new_owner: Option<(HostResult<Config>, HostResult<String>)>,
    r: Result<Migrated, ContractError>,
) -> bool {
    if older && old_supply is Err {
        r == Err::<Migrated, ContractError>(ContractError::Std(BasicError::Host(old_supply->Err_0)))
    } else if older && old_supply->Ok_0.unbonding@.len() > 0 {
        r == Err::<Migrated, ContractError>(ContractError::MigrationFailed)
    } else {
        let books = if older {
            Some((new_supply(old_supply->Ok_0), old_supply->Ok_0.bonded))
        } else {
            None
        };
        match new_owner {
            Some((Err(error), _)) | Some((Ok(_), Err(error))) => r == Err::<
                Migrated,
                ContractError,
            >(ContractError::Std(BasicError::Host(error))),
            Some((Ok(config), Ok(owner))) => {
                &&& r is Ok
                &&& r->Ok_0.response.is_empty()
                &&& r->Ok_0.books == books
                &&& r->Ok_0.config == Some(Config { owner, ..config })
            },
            None => {
                &&& r is Ok
                &&& r->Ok_0.response.is_empty()
                &&& r->Ok_0.books == books
                &&& r->Ok_0.config is None
            },
        }
    }
}

/// Brings the books up to date, if they are those of an older version, and changes
/// the owner, if there is a new one. Stake that is being released cannot be carried
/// over.
pub fn migrate_from(
    older: bool,
    old_supply: HostResult<OldSupply>,
    new_owner: Option<(HostResult<Config>, HostResult<String>)>,
) -> (r: Result<Migrated, ContractError>)
    ensures
        migrated(older, old_supply, new_owner, r),
{
    let mut books: Option<(Supply, Vec<(String, u128)>)> = None;
    if older {
        let old_supply = match old_supply {
            Ok(old_supply) => old_supply,
            Err(error) => {
                return Err(ContractError::Std(BasicError::Host(error)));
            },
        };
        if old_supply.unbonding.len() > 0 {
            return Err(ContractError::MigrationFailed);
        }
        let supply = Supply {
            bond_denom: old_supply.bond_denom,
            issued: old_supply.issued,
            total_bonded: old_supply.total_bonded,
            claims: old_supply.claims,
            total_unbonding: old_supply.total_unbonding,
        };
        books = Some((supply, old_supply.bonded));
    }
    let mut config: Option<Config> = None;
    match new_owner {
        Some((Ok(settings), Ok(owner))) => {
            let mut changed = settings;
            changed.owner = owner;
            config = Some(changed);
        },
        Some((Err(error), _)) => {
            return Err(ContractError::Std(BasicError::Host(error)));
        },
        Some((Ok(_), Err(error))) => {
            return Err(ContractError::Std(BasicError::Host(error)));
        },
        None => {},
    }
    Ok(Migrated { books, config, response: Response::new() })
}

/// The first version that keeps the books as they are kept now.
pub open spec fn separate_books() -> Seq<char> {
    "1.1.0"@
}

/// Takes over from `version`: brings the books up to date, if it is older than
/// [`separate_books`], and changes the owner, if there is a new one.
pub fn migrate(
    version: &str,
    old_supply: HostResult<OldSupply>,
    new_owner: Option<(HostResult<Config>, HostResult<String>)>,
) -> (r: Result<Migrated, ContractError>)
    ensures
        match version_precedes(version@, separate_books()) {
            Ok(older) => migrated(older, old_supply, new_owner, r),
            Err(text) => {
                &&& r matches Err(ContractError::Std(BasicError::GenericErr { msg }))
                &&& msg@ == "Semver: "@ + text
            },
        },
        version@ == separate_books() && r is Ok ==> r->Ok_0.books is None,
{
    match precedes_release(version, "1.1.0") {
        Ok(older) => migrate_from(older, old_supply, new_owner),
        Err(text) => {
            let msg = String::from_str("Semver: ").concat(text.as_str());
            Err(ContractError::Std(BasicError::GenericErr { msg }))
        },
    }
}

} // verus!
