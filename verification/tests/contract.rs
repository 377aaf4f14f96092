//! The entry points.

use cosmwasm_std::testing::{mock_dependencies, mock_env};
use cosmwasm_std::{to_json_binary, Addr, Binary, StdError, Uint128};
use cw20::{Cw20Coin, Cw20ExecuteMsg, EmbeddedLogo, MinterResponse};
use cw20_base::msg::{InstantiateMarketingInfo, InstantiateMsg as Cw20InstantiateMsg};
use cw_controllers::Claims;
use cw_utils::Expiration;

use wynd_lsd_hub::contract::{
    execute, instantiate, instantiate_with, migrate, migrate_from, query, register_token, reply,
    reply_with, sum_weights, Migrated, QueryResponse, ReplyStep, Step,
};
use wynd_lsd_hub::decimal::Decimal;
use wynd_lsd_hub::error::{BasicError, ContractError, ParseReplyError, PaymentError};
use wynd_lsd_hub::execute::{
    bond, claim, emergency_unbond_all, handle_receive, reinvest, set_validators, unbond,
    update_liquidity_discount, Delegation, NewClaim, ValsetChange,
};
use wynd_lsd_hub::hub::Hub;
use wynd_lsd_hub::migration::{Expiration as OldExpiration, OldSupply, OldUnbonding};
use wynd_lsd_hub::msg::{
    ConfigResponse, ExchangeRateResponse, ExecuteMsg, InstantiateMsg, Logo, MarketingInfo,
    QueryMsg, ReceiveMsg, ReceivedShares, SupplyInfo, SupplyResponse, TargetValueResponse,
    TokenInitInfo, ValidatorSetResponse,
};
use wynd_lsd_hub::payment::MessageInfo;
use wynd_lsd_hub::response::{Attribute, Coin, CosmosMsg, ReplyOn, Response, SubMsg};
use wynd_lsd_hub::state::{Config, Timestamp};
use wynd_lsd_hub::supply::Supply;

const TOKEN: &str = "ufun";
const DAY: u64 = 24 * 60 * 60;
const EPOCH: u64 = 23 * 60 * 60;
const CLAIMS: Claims = Claims::new("claims");

fn now() -> Timestamp {
    Timestamp { nanos: mock_env().block.time.nanos() }
}

fn later(time: Timestamp, seconds: u64) -> Timestamp {
    Timestamp { nanos: time.nanos + seconds * 1_000_000_000 }
}

fn contract_address() -> String {
    mock_env().contract.address.to_string()
}

fn token_init() -> TokenInitInfo {
    TokenInitInfo {
        label: "label".to_string(),
        cw20_code_id: 0,
        name: "funLSD".to_string(),
        symbol: "fLSD".to_string(),
        decimals: 6,
        initial_balances: vec![],
        marketing: None,
    }
}

fn init_msg() -> InstantiateMsg {
    InstantiateMsg {
        treasury: "treasury".to_string(),
        commission: Decimal::percent(10),
        validators: vec![("val1".to_string(), Decimal::percent(100))],
        owner: "owner".to_string(),
        epoch_period: 3600u64,
        unbond_period: 3600u64,
        max_concurrent_unbondings: 7,
        cw20_init: token_init(),
        liquidity_discount: Decimal::percent(4),
    }
}

fn try_init(msg: InstantiateMsg) -> Result<(Hub, Response), ContractError> {
    let treasury = msg.treasury.clone();
    let owner = msg.owner.clone();
    instantiate(msg, &contract_address(), Ok(TOKEN.to_string()), Ok(treasury), Ok(owner), now())
}

fn init(owner: &str) -> Hub {
    let msg = InstantiateMsg {
        owner: owner.to_string(),
        epoch_period: EPOCH,
        unbond_period: 28 * DAY,
        ..init_msg()
    };
    try_init(msg).unwrap().0
}

fn host_error(text: &str) -> StdError {
    StdError::generic_err(text)
}

fn host<T>(text: &str) -> Result<T, ContractError> {
    Err(ContractError::Std(BasicError::Host(host_error(text))))
}

fn coin(amount: u128, denom: &str) -> Coin {
    Coin { denom: denom.to_string(), amount }
}

fn info(sender: &str, funds: Vec<Coin>) -> MessageInfo {
    MessageInfo { sender: sender.to_string(), funds }
}

fn attribute(key: &str, value: &str) -> Attribute {
    Attribute { key: key.to_string(), value: value.to_string() }
}

fn plain(msg: CosmosMsg) -> SubMsg {
    SubMsg { id: 0, msg, reply_on: ReplyOn::Never }
}

/// Deposits `amount`, which is added to `balance`.
fn do_deposit(hub: &mut Hub, balance: &mut u128, sender: &str, amount: u128) {
    *balance += amount;
    let res = bond(hub, &info(sender, vec![coin(amount, TOKEN)]), Ok(*balance), now()).unwrap();
    assert_eq!(1, res.messages.len());
}

#[test]
fn proper_init() {
    let (hub, res) = try_init(init_msg()).unwrap();
    assert_eq!(
        res.messages,
        vec![SubMsg {
            msg: CosmosMsg::Instantiate {
                code_id: 0u64,
                msg: to_json_binary(&Cw20InstantiateMsg {
                    mint: Some(MinterResponse {
                        minter: "cosmos2contract".to_string(),
                        cap: None,
                    }),
                    name: "funLSD".to_string(),
                    symbol: "fLSD".to_string(),
                    decimals: 6,
                    initial_balances: vec![],
                    marketing: None,
                })
                .unwrap()
                .to_vec(),
                admin: Some("cosmos2contract".to_owned()),
                label: String::from("label"),
            },
            id: 1,
            reply_on: ReplyOn::Success
        },]
    );
    assert_eq!(
        res.attributes,
        vec![attribute("validator_0", "val1"), attribute("validator_0_weight", "1")]
    );
    assert!(hub.valid());
    assert_eq!(hub.supply, Supply::new(TOKEN.to_string()));
    assert_eq!(hub.config.token_contract, "");
    assert_eq!(hub.config.next_epoch, 1_571_797_419 + 3600);
    assert_eq!(hub.config.next_unbond, hub.config.next_epoch);
    assert_eq!(hub.tmp_balance, None);
}

#[test]
fn reply_parse_data() {
    // data that is not what the creation of a contract returns
    let data = Binary::from_base64("MTIzCg==").unwrap().to_vec();
    let err = reply(1, Ok(Some(data.clone()))).unwrap_err();
    // Verify the error failed to parse data for the message type
    assert_eq!(
        err,
        ContractError::ParseReply(ParseReplyError::ParseFailure(
            "failed to decode Protobuf message: invalid field #6 for field #1".to_string()
        ))
    );

    // Try again with an invalid ID
    let err = reply(999, Ok(Some(data))).unwrap_err();
    // Verify the error is invalid reply id
    assert_eq!(
        err,
        ContractError::Std(BasicError::GenericErr {
            msg: "invalid reply id: 999; must be 1".to_string()
        })
    );
}

#[test]
fn invalid_init() {
    // Instantiate message with invalid commission
    let msg = InstantiateMsg { commission: Decimal::percent(100), ..init_msg() };
    // Verify the error is InvalidCommission
    assert!(matches!(try_init(msg).unwrap_err(), ContractError::InvalidCommission));

    // Instantiate message with invalid validator weights
    let msg = InstantiateMsg {
        validators: vec![("val1".to_string(), Decimal::percent(50))],
        ..init_msg()
    };
    assert!(matches!(try_init(msg).unwrap_err(), ContractError::InvalidValidatorWeights));

    // Instantiate message with a bad Liquidity Discount value
    let msg = InstantiateMsg { liquidity_discount: Decimal::percent(100), ..init_msg() };
    assert!(matches!(try_init(msg).unwrap_err(), ContractError::InvalidLiquidityDiscount));
}

#[test]
fn unbonding_burns_tokens() {
    const SENDER: &str = "sender";

    let sender = "addr0000";
    let mut hub = init(sender);
    let mut balance = 0;

    do_deposit(&mut hub, &mut balance, SENDER, 1700);
    let (res, _) =
        unbond(&mut hub, &"".to_string(), 100, Ok(sender.to_string()), Ok(balance), now()).unwrap();
    assert_eq!(
        res.messages[0].msg,
        CosmosMsg::Execute {
            contract_addr: "".to_string(),
            msg: to_json_binary(&Cw20ExecuteMsg::Burn { amount: 100u128.into() })
                .unwrap()
                .to_vec(),
        }
    );
}

#[test]
fn basic_claim_creation_works() {
    const SENDER: &str = "sender";
    const SENDER2: &str = "sender2";

    let mut deps = mock_dependencies();
    let mut hub = init("creator");
    let mut balance = 0;

    // initial deposits
    do_deposit(&mut hub, &mut balance, SENDER, 1700);
    do_deposit(&mut hub, &mut balance, SENDER2, 800);
    // create a claim
    let (_, new) =
        unbond(&mut hub, &"".to_string(), 500, Ok(SENDER.to_string()), Ok(balance), now()).unwrap();
    create(&mut deps.storage, new);
    assert_eq!(
        1,
        CLAIMS
            .query_claims(deps.as_ref(), &Addr::unchecked(SENDER.to_string()))
            .unwrap()
            .claims
            .len()
    );

    // create a second claim
    let (_, new) =
        unbond(&mut hub, &"".to_string(), 500, Ok(SENDER.to_string()), Ok(balance), now()).unwrap();
    create(&mut deps.storage, new);
    assert_eq!(
        2,
        CLAIMS
            .query_claims(deps.as_ref(), &Addr::unchecked(SENDER.to_string()))
            .unwrap()
            .claims
            .len()
    );
}

fn create(storage: &mut dyn cosmwasm_std::Storage, claim: NewClaim) {
    CLAIMS
        .create_claim(
            storage,
            &Addr::unchecked(claim.owner),
            Uint128::new(claim.amount),
            Expiration::AtTime(cosmwasm_std::Timestamp::from_nanos(claim.release_at.nanos)),
        )
        .unwrap();
}

#[test]
fn epoch_handling() {
    let mut time = now();
    let mut hub = try_init(init_msg()).unwrap().0;

    // update the epoch timer once
    time = later(time, 3600);
    reinvest(&mut hub, Ok(0), time).unwrap();

    // wait until just before the next epoch
    time = later(time, 3599);
    assert!(matches!(
        reinvest(&mut hub, Ok(0), time).unwrap_err(),
        ContractError::EpochNotReached { next_epoch: _ },
    ));

    // now right at the epoch
    time = later(time, 1);
    reinvest(&mut hub, Ok(0), time).unwrap();

    // skip a few epochs
    time = later(time, 3600 * 5 + 1);
    reinvest(&mut hub, Ok(0), time).unwrap();

    // next epoch should be sooner than epoch period, since it keeps the same rythm
    // and we triggered last epoch 1 second too late
    time = later(time, 3599);
    reinvest(&mut hub, Ok(0), time).unwrap();
}

#[test]
fn init_checks_every_setting() {
    let msg = InstantiateMsg { commission: Decimal::percent(50), ..init_msg() };
    assert!(try_init(msg).is_ok());
    let msg = InstantiateMsg { commission: Decimal::percent(51), ..init_msg() };
    assert_eq!(try_init(msg).unwrap_err(), ContractError::InvalidCommission);
    let msg = InstantiateMsg { commission: Decimal { atomics: 0 }, ..init_msg() };
    assert_eq!(try_init(msg).unwrap_err(), ContractError::InvalidCommission);
    let msg = InstantiateMsg { commission: Decimal { atomics: 1 }, ..init_msg() };
    assert!(try_init(msg).is_ok());

    let msg = InstantiateMsg { validators: vec![], ..init_msg() };
    assert_eq!(try_init(msg).unwrap_err(), ContractError::InvalidValidatorWeights);
    let msg = InstantiateMsg {
        validators: vec![
            ("a".to_string(), Decimal::percent(60)),
            ("b".to_string(), Decimal::percent(41)),
        ],
        ..init_msg()
    };
    assert_eq!(try_init(msg).unwrap_err(), ContractError::InvalidValidatorWeights);

    let msg = InstantiateMsg { liquidity_discount: Decimal::percent(49), ..init_msg() };
    assert!(try_init(msg).is_ok());
    let msg = InstantiateMsg { liquidity_discount: Decimal::percent(50), ..init_msg() };
    assert_eq!(try_init(msg).unwrap_err(), ContractError::InvalidLiquidityDiscount);

    for period in [3599, 31_536_001] {
        let msg = InstantiateMsg { epoch_period: period, ..init_msg() };
        assert_eq!(try_init(msg).unwrap_err(), ContractError::InvalidEpochPeriod);
        let msg = InstantiateMsg { unbond_period: period, ..init_msg() };
        assert_eq!(try_init(msg).unwrap_err(), ContractError::InvalidUnbondPeriod);
    }
    for period in [3600, 31_536_000] {
        let msg = InstantiateMsg { epoch_period: period, unbond_period: period, ..init_msg() };
        assert!(try_init(msg).is_ok());
    }

    let msg = InstantiateMsg { max_concurrent_unbondings: 0, ..init_msg() };
    assert_eq!(try_init(msg).unwrap_err(), ContractError::InvalidMaxConcurrentUnbondings);
}

#[test]
fn init_passes_on_what_the_chain_refuses() {
    let address = contract_address();
    let ok = || Ok("x".to_string());
    let all_bad = InstantiateMsg { commission: Decimal::percent(51), ..init_msg() };
    assert_eq!(
        instantiate(all_bad, &address, Err(host_error("denom")), ok(), ok(), now()),
        host("denom")
    );
    assert_eq!(
        instantiate(
            init_msg(),
            &address,
            ok(),
            Err(host_error("treasury")),
            Err(host_error("owner")),
            now()
        ),
        host("treasury")
    );
    assert_eq!(
        instantiate(init_msg(), &address, ok(), ok(), Err(host_error("owner")), now()),
        host("owner")
    );
}

#[test]
fn init_lists_the_validators() {
    let msg = InstantiateMsg {
        validators: vec![
            ("a".to_string(), Decimal::percent(60)),
            ("b".to_string(), Decimal { atomics: 399_999_999_999_999_999 }),
            ("c".to_string(), Decimal { atomics: 1 }),
        ],
        ..init_msg()
    };
    assert_eq!(sum_weights(&msg.validators), Some(Decimal::one()));
    let (_, res) = instantiate_with(
        msg,
        &"hub".to_string(),
        vec![1, 2, 3],
        Ok(TOKEN.to_string()),
        Ok("t".to_string()),
        Ok("o".to_string()),
        now(),
    )
    .unwrap();
    assert_eq!(
        res.attributes,
        vec![
            attribute("validator_0", "a"),
            attribute("validator_0_weight", "0.6"),
            attribute("validator_1", "b"),
            attribute("validator_1_weight", "0.399999999999999999"),
            attribute("validator_2", "c"),
            attribute("validator_2_weight", "0.000000000000000001"),
        ]
    );
    assert_eq!(
        res.messages[0].msg,
        CosmosMsg::Instantiate {
            admin: Some("hub".to_string()),
            code_id: 0,
            msg: vec![1, 2, 3],
            label: "label".to_string(),
        }
    );
}

#[test]
fn weights_that_do_not_fit_have_no_sum() {
    let heavy = Decimal { atomics: u128::MAX };
    let validators = vec![("a".to_string(), heavy), ("b".to_string(), Decimal { atomics: 1 })];
    assert_eq!(sum_weights(&validators), None);
    assert_eq!(sum_weights(&vec![]), Some(Decimal { atomics: 0 }));
}

fn token_body(res: &Response) -> Vec<u8> {
    match &res.messages[0].msg {
        CosmosMsg::Instantiate { msg, .. } => msg.clone(),
        other => panic!("unexpected {:?}", other),
    }
}

#[test]
fn token_setup_is_handed_on() {
    for (logo, expected) in [
        (Logo::Url("https://logo".to_string()), cw20::Logo::Url("https://logo".to_string())),
        (
            Logo::Svg(vec![1, 2, 3, 4]),
            cw20::Logo::Embedded(EmbeddedLogo::Svg(Binary(vec![1, 2, 3, 4]))),
        ),
        (Logo::Png(vec![]), cw20::Logo::Embedded(EmbeddedLogo::Png(Binary(vec![])))),
    ] {
        let token = TokenInitInfo {
            initial_balances: vec![("alice".to_string(), 12), ("bob".to_string(), 0)],
            marketing: Some(MarketingInfo {
                project: Some("pro\"ject".to_string()),
                description: None,
                marketing: Some("market".to_string()),
                logo: Some(logo),
            }),
            ..token_init()
        };
        let (_, res) = try_init(InstantiateMsg { cw20_init: token, ..init_msg() }).unwrap();
        let expected = Cw20InstantiateMsg {
            name: "funLSD".to_string(),
            symbol: "fLSD".to_string(),
            decimals: 6,
            initial_balances: vec![
                Cw20Coin { address: "alice".to_string(), amount: 12u128.into() },
                Cw20Coin { address: "bob".to_string(), amount: 0u128.into() },
            ],
            mint: Some(MinterResponse { minter: contract_address(), cap: None }),
            marketing: Some(InstantiateMarketingInfo {
                project: Some("pro\"ject".to_string()),
                description: None,
                marketing: Some("market".to_string()),
                logo: Some(expected),
            }),
        };
        assert_eq!(token_body(&res), to_json_binary(&expected).unwrap().to_vec());
    }
}

#[test]
fn only_leaving_is_permitted() {
    let received = ReceivedShares { sender: "s".to_string(), amount: 5, msg: vec![1] };
    assert_eq!(execute(ExecuteMsg::Receive(received.clone())), Ok(Step::Receive(received)));
    assert_eq!(execute(ExecuteMsg::Claim), Ok(Step::Claim));
    assert_eq!(execute(ExecuteMsg::EmergencyUnbondAll), Ok(Step::EmergencyUnbondAll));
    assert_eq!(execute(ExecuteMsg::Bond), Err(ContractError::BondingDisabled));
    assert_eq!(execute(ExecuteMsg::Reinvest), Err(ContractError::Unauthorized));
    assert_eq!(
        execute(ExecuteMsg::SetValidators { new_validators: vec![] }),
        Err(ContractError::Unauthorized)
    );
    assert_eq!(
        execute(ExecuteMsg::UpdateLiquidityDiscount { new_discount: Decimal::percent(1) }),
        Err(ContractError::Unauthorized)
    );
}

#[test]
fn replies_are_told_apart() {
    // field 1 with five bytes, then field 2 with two
    let data = [&[10, 5][..], b"token", &[18, 2, 7, 7][..]].concat();
    assert_eq!(
        reply(1, Ok(Some(data))),
        Ok(ReplyStep::RegisterToken { contract_address: "token".to_string() })
    );
    assert_eq!(
        reply(1, Err("broken".to_string())),
        Err(ContractError::ParseReply(ParseReplyError::SubMsgFailure("broken".to_string())))
    );
    assert_eq!(
        reply(1, Ok(None)),
        Err(ContractError::ParseReply(ParseReplyError::ParseFailure(
            "Missing reply data".to_string()
        )))
    );
    assert_eq!(
        reply(1, Ok(Some(vec![10, 1, 255]))),
        Err(ContractError::ParseReply(ParseReplyError::BrokenUtf8(vec![255])))
    );
    assert_eq!(reply(2, Err("failed".to_string())), Ok(ReplyStep::Settle));
    assert_eq!(reply(2, Ok(None)), Ok(ReplyStep::Settle));
    assert_eq!(reply(3, Err("failed".to_string())), Ok(ReplyStep::Ignore));
    assert_eq!(
        reply_with(0, Ok("x".to_string())),
        Err(ContractError::Std(BasicError::GenericErr {
            msg: "invalid reply id: 0; must be 1".to_string()
        }))
    );
    assert_eq!(
        reply_with(1, Ok("x".to_string())),
        Ok(ReplyStep::RegisterToken { contract_address: "x".to_string() })
    );
}

#[test]
fn token_is_registered() {
    let mut hub = init("owner");
    let before = hub.clone();
    let created = || "Token".to_string();
    assert_eq!(
        register_token(
            &mut hub.config,
            created(),
            Err(host_error("admin")),
            Err(host_error("token"))
        ),
        host("admin")
    );
    assert_eq!(
        register_token(
            &mut hub.config,
            created(),
            Ok("admin".to_string()),
            Err(host_error("token"))
        ),
        host("token")
    );
    assert_eq!(hub, before);
    let res = register_token(
        &mut hub.config,
        created(),
        Ok("admin".to_string()),
        Ok("token".to_string()),
    )
    .unwrap();
    assert_eq!(
        res.messages,
        vec![plain(CosmosMsg::UpdateAdmin {
            contract_addr: "Token".to_string(),
            admin: "admin".to_string()
        })]
    );
    assert_eq!(hub.config.token_contract, "token");
}

#[test]
fn bonding_needs_the_right_payment() {
    let mut hub = init("owner");
    let before = hub.clone();
    let none = bond(&mut hub, &info("s", vec![]), Ok(0), now());
    assert_eq!(none, Err(ContractError::Payment(PaymentError::NoFunds)));
    let zero = bond(&mut hub, &info("s", vec![coin(0, TOKEN)]), Ok(0), now());
    assert_eq!(zero, Err(ContractError::Payment(PaymentError::NoFunds)));
    let other = bond(&mut hub, &info("s", vec![coin(5, "other")]), Ok(5), now());
    assert_eq!(
        other,
        Err(ContractError::Payment(PaymentError::MissingDenom(TOKEN.to_string())))
    );
    let two = vec![coin(5, TOKEN), coin(5, "other")];
    let several = bond(&mut hub, &info("s", two), Ok(5), now());
    assert_eq!(several, Err(ContractError::Payment(PaymentError::MultipleDenoms)));
    let unknown = bond(&mut hub, &info("s", vec![coin(5, TOKEN)]), Err(host_error("b")), now());
    assert_eq!(unknown, host("b"));
    assert_eq!(hub, before);
}

#[test]
fn bonding_issues_shares() {
    let mut hub = init("owner");
    hub.config.token_contract = "token".to_string();
    let sender = "quo\"te\\ \u{1}\u{1f}\n\u{7f}ü";
    let res = bond(&mut hub, &info(sender, vec![coin(1000, TOKEN)]), Ok(1000), now()).unwrap();
    let mint = Cw20ExecuteMsg::Mint { recipient: sender.to_string(), amount: 1000u128.into() };
    assert_eq!(
        res.messages,
        vec![plain(CosmosMsg::Execute {
            contract_addr: "token".to_string(),
            msg: to_json_binary(&mint).unwrap().to_vec()
        })]
    );
    let body = "{\"mint\":{\"recipient\":\"quo\\\"te\\\\ \\u0001\\u001F\\n\u{7f}ü\",\"amount\":\"1000\"}}";
    assert_eq!(String::from_utf8(to_json_binary(&mint).unwrap().to_vec()).unwrap(), body);
    assert_eq!(hub.supply.issued, 1000);
    // the pool has doubled in value: two tokens per share
    let res = bond(&mut hub, &info("late", vec![coin(301, TOKEN)]), Ok(2301), now()).unwrap();
    let body = "{\"mint\":{\"recipient\":\"late\",\"amount\":\"150\"}}";
    assert_eq!(
        res.messages[0].msg,
        CosmosMsg::Execute {
            contract_addr: "token".to_string(),
            msg: body.as_bytes().to_vec()
        }
    );
    assert_eq!(hub.supply.issued, 1150);
}

#[test]
fn unbonding_is_for_the_token_only() {
    let mut hub = init("owner");
    hub.config.token_contract = "token".to_string();
    hub.supply.issued = 100;
    let before = hub.clone();
    let token = "token".to_string();
    let stranger = "stranger".to_string();
    let receive = |hub: &mut Hub, contract: &String, msg, sender, balance| {
        handle_receive(hub, contract, msg, 40, sender, balance, now())
    };
    let ok = || Ok("s".to_string());
    let fail = || Err(host_error("sender"));
    let unbond_msg = || Ok(ReceiveMsg::Unbond);
    assert_eq!(
        receive(&mut hub, &stranger, Err(host_error("json")), fail(), Err(host_error("b"))),
        host("json")
    );
    assert_eq!(
        receive(&mut hub, &stranger, unbond_msg(), fail(), Err(host_error("b"))),
        Err(ContractError::InvalidToken)
    );
    assert_eq!(
        receive(&mut hub, &token, unbond_msg(), fail(), Err(host_error("b"))),
        host("b")
    );
    assert_eq!(receive(&mut hub, &token, unbond_msg(), fail(), Ok(300)), host("sender"));
    assert_eq!(hub, before);

    assert!(hub.unbond_possible(40, 300, now()));
    assert!(!hub.unbond_possible(101, 300, now()));
    let (_, new) = receive(&mut hub, &token, unbond_msg(), ok(), Ok(300)).unwrap();
    let start = 1_571_797_419 + EPOCH;
    assert_eq!(
        new,
        NewClaim {
            owner: "s".to_string(),
            amount: 120,
            release_at: Timestamp { nanos: (start + 28 * DAY) * 1_000_000_000 },
        }
    );
    assert_eq!(hub.supply.issued, 60);
    assert_eq!(hub.supply.claims, 120);
}

#[test]
fn claims_wait_for_the_later_start() {
    let mut hub = init("owner");
    hub.supply.issued = 100;
    hub.config.next_unbond = hub.config.next_epoch + 77;
    let token = "".to_string();
    let owner = Ok("s".to_string());
    let (_, new) = unbond(&mut hub, &token, 1, owner, Ok(100), now()).unwrap();
    let start = hub.config.next_epoch + 77;
    assert_eq!(new.release_at.nanos, (start + 28 * DAY) * 1_000_000_000);
}

#[test]
fn claims_are_paid() {
    let mut hub = init("owner");
    hub.supply.claims = 500;
    let sender = "s".to_string();
    let before = hub.clone();
    assert_eq!(claim(&mut hub, &sender, 0), Err(ContractError::NothingToClaim));
    assert_eq!(
        claim(&mut hub, &sender, 501),
        Err(ContractError::Std(BasicError::Underflow { minuend: 500, subtrahend: 501 }))
    );
    assert_eq!(hub, before);
    let res = claim(&mut hub, &sender, 120).unwrap();
    assert_eq!(
        res.messages,
        vec![plain(CosmosMsg::Send { to_address: sender, amount: coin(120, TOKEN) })]
    );
    assert_eq!(
        res.attributes,
        vec![attribute("action", "claim"), attribute("from", "s"), attribute("amount", "120")]
    );
    assert_eq!(hub.supply.claims, 380);
}

#[test]
fn claims_come_from_the_store() {
    let mut deps = mock_dependencies();
    let mut hub = init("owner");
    let mut balance = 0;
    do_deposit(&mut hub, &mut balance, "sender", 1000);
    let token = "".to_string();
    let owner = Ok("sender".to_string());
    let (_, new) = unbond(&mut hub, &token, 400, owner, Ok(balance), now()).unwrap();
    let release = new.release_at;
    create(&mut deps.storage, new);
    let mut block = mock_env().block;
    let sender = Addr::unchecked("sender");
    let early = CLAIMS
        .claim_tokens(&mut deps.storage, &sender, &block, Some(Uint128::new(balance)))
        .unwrap();
    assert_eq!(
        claim(&mut hub, &"sender".to_string(), early.u128()),
        Err(ContractError::NothingToClaim)
    );
    block.time = cosmwasm_std::Timestamp::from_nanos(release.nanos);
    let due = CLAIMS
        .claim_tokens(&mut deps.storage, &sender, &block, Some(Uint128::new(balance)))
        .unwrap();
    assert!(claim(&mut hub, &"sender".to_string(), due.u128()).is_ok());
    assert_eq!(hub.supply.claims, 0);
}

#[test]
fn discount_is_for_the_owner_to_change() {
    let mut hub = init("owner");
    let before = hub.clone();
    let owner = "owner".to_string();
    assert_eq!(
        update_liquidity_discount(&mut hub.config, &"other".to_string(), Decimal::percent(50)),
        Err(ContractError::Unauthorized)
    );
    assert_eq!(
        update_liquidity_discount(&mut hub.config, &owner, Decimal::percent(50)),
        Err(ContractError::InvalidLiquidityDiscount)
    );
    assert_eq!(hub, before);
    let res = update_liquidity_discount(&mut hub.config, &owner, Decimal::percent(7)).unwrap();
    assert_eq!(
        res.attributes,
        vec![
            attribute("action", "update_liquidity_discount"),
            attribute("liquidity_discount", "0.07")
        ]
    );
    assert_eq!(hub.config.liquidity_discount, Decimal::percent(7));
}

#[test]
fn validators_are_for_the_owner_to_change() {
    let mut hub = init("owner");
    let before = hub.clone();
    let owner = "owner".to_string();
    let validators = || vec![("val2".to_string(), Decimal::percent(100))];
    let change = || {
        Ok(ValsetChange {
            messages: vec![CosmosMsg::Redelegate {
                src_validator: "val1".to_string(),
                dst_validator: "val2".to_string(),
                amount: coin(70, TOKEN),
            }],
            new_balances: vec![("val2".to_string(), 70)],
        })
    };
    assert_eq!(
        set_validators(&mut hub, &"other".to_string(), now(), validators(), change()),
        Err(ContractError::Unauthorized)
    );
    assert_eq!(hub, before);

    // nothing is bonded: nothing is moved
    let res = set_validators(&mut hub, &owner, now(), validators(), change()).unwrap();
    assert_eq!(res, Response::new());
    assert_eq!(hub.stake_info.validators, validators());
    assert_eq!(hub.bonded, vec![]);

    let mut hub = init("owner");
    hub.bonded = vec![("val1".to_string(), 70)];
    hub.supply.total_bonded = 70;
    let before = hub.clone();
    assert_eq!(
        set_validators(&mut hub, &owner, now(), validators(), Err(ContractError::NotOwner)),
        Err(ContractError::NotOwner)
    );
    assert_eq!(hub, before);
    let res = set_validators(&mut hub, &owner, now(), validators(), change()).unwrap();
    assert_eq!(res.messages, vec![plain(change().unwrap().messages[0].clone())]);
    assert_eq!(hub.bonded, vec![("val2".to_string(), 70)]);
    assert_eq!(hub.supply.total_bonded, 70);
}

#[test]
fn emergency_undelegates_everything() {
    let mut hub = init("owner");
    hub.bonded = vec![("a".to_string(), 30), ("b".to_string(), 12)];
    hub.supply.total_bonded = 42;
    hub.supply.total_unbonding = 8;
    hub.supply.issued = 11;
    let before = hub.clone();
    let owner = "owner".to_string();
    let list = vec![
        Delegation { validator: "a".to_string(), amount: coin(30, TOKEN) },
        Delegation { validator: "b".to_string(), amount: coin(12, TOKEN) },
    ];
    assert_eq!(
        emergency_unbond_all(&mut hub, &"other".to_string(), Err(host_error("list"))),
        Err(ContractError::NotOwner)
    );
    assert_eq!(emergency_unbond_all(&mut hub, &owner, Err(host_error("list"))), host("list"));
    assert_eq!(
        emergency_unbond_all(&mut hub, &owner, Ok(vec![])),
        Err(ContractError::NoDelegationsFound)
    );
    assert_eq!(hub, before);
    let res = emergency_unbond_all(&mut hub, &owner, Ok(list)).unwrap();
    assert_eq!(
        res.messages,
        vec![
            plain(CosmosMsg::Undelegate { validator: "a".to_string(), amount: coin(30, TOKEN) }),
            plain(CosmosMsg::Undelegate { validator: "b".to_string(), amount: coin(12, TOKEN) }),
        ]
    );
    assert_eq!(
        res.attributes,
        vec![attribute("action", "emergency_unbond_all"), attribute("amount_unbonded", "50")]
    );
    assert_eq!(hub.bonded, vec![]);
    assert_eq!(hub.supply.total_bonded, 0);
    assert_eq!(hub.supply.total_unbonding, 50);
    assert_eq!(hub.supply.tokens_per_share(7), before.supply.tokens_per_share(7));
}

#[test]
fn questions_are_answered() {
    let mut hub = init("owner");
    hub.config.token_contract = "token".to_string();
    hub.supply.issued = 400;
    hub.supply.total_bonded = 800;
    hub.supply.claims = 100;
    let ask = |msg, balance| query(hub.clone(), msg, balance, now());
    assert_eq!(
        ask(QueryMsg::Config, Ok(0)),
        Ok(QueryResponse::Config(ConfigResponse {
            owner: "owner".to_string(),
            token_contract: "token".to_string(),
            treasury: "treasury".to_string(),
            commission: Decimal::percent(10),
            epoch_period: EPOCH,
            unbond_period: 28 * DAY,
        }))
    );
    assert_eq!(
        ask(QueryMsg::Claims { address: "s".to_string() }, Ok(0)),
        Ok(QueryResponse::Claims { address: "s".to_string() })
    );
    assert_eq!(
        ask(QueryMsg::ValidatorSet, Ok(0)),
        Ok(QueryResponse::ValidatorSet(ValidatorSetResponse {
            validator_set: vec![("val1".to_string(), Decimal::percent(100))]
        }))
    );
    assert_eq!(
        ask(QueryMsg::Supply, Err(host_error("b"))),
        Ok(QueryResponse::Supply(SupplyResponse {
            supply: SupplyInfo {
                bond_denom: TOKEN.to_string(),
                issued: 400,
                total_bonded: 800,
                claims: 100,
                total_unbonding: 0,
            }
        }))
    );
    assert!(hub.price_known(300, now()));
    // 1000 tokens for 400 shares
    assert_eq!(
        ask(QueryMsg::ExchangeRate, Ok(300)),
        Ok(QueryResponse::ExchangeRate(ExchangeRateResponse {
            exchange_rate: Decimal::percent(250)
        }))
    );
    assert_eq!(
        ask(QueryMsg::TargetValue, Ok(300)),
        Ok(QueryResponse::TargetValue(TargetValueResponse {
            target_value: Decimal::percent(240)
        }))
    );
    assert_eq!(ask(QueryMsg::ExchangeRate, Err(host_error("b"))), Err(host_error("b")));
    assert_eq!(ask(QueryMsg::TargetValue, Err(host_error("b"))), Err(host_error("b")));
}

#[test]
fn plain_questions_are_answered_in_any_state() {
    let mut hub = init("owner");
    hub.config.max_concurrent_unbondings = 0;
    assert!(!hub.valid());
    for msg in [QueryMsg::Config, QueryMsg::ValidatorSet, QueryMsg::Supply] {
        assert!(query(hub.clone(), msg, Err(host_error("b")), now()).is_ok());
    }
}

#[test]
fn price_is_unknown_when_claims_exceed_everything() {
    let mut hub = init("owner");
    hub.supply.issued = 400;
    hub.supply.claims = 100;
    assert!(!hub.price_known(99, now()));
    assert!(hub.price_known(100, now()));
}

fn old_supply() -> OldSupply {
    OldSupply {
        bond_denom: TOKEN.to_string(),
        issued: 10,
        total_bonded: 20,
        bonded: vec![("val1".to_string(), 20)],
        claims: 3,
        unbonding: vec![],
        total_unbonding: 4,
    }
}

#[test]
fn older_books_are_brought_up_to_date() {
    let migrated = migrate("1.0.3", Ok(old_supply()), None).unwrap();
    assert_eq!(
        migrated,
        Migrated {
            books: Some((
                Supply {
                    bond_denom: TOKEN.to_string(),
                    issued: 10,
                    total_bonded: 20,
                    claims: 3,
                    total_unbonding: 4,
                },
                vec![("val1".to_string(), 20)]
            )),
            config: None,
            response: Response::new(),
        }
    );

    // a candidate comes before its release
    let migrated = migrate("1.1.0-rc1", Ok(old_supply()), None).unwrap();
    assert!(migrated.books.is_some());
    for version in ["1.1.0", "1.1.1", "1.10.0", "2.0.0"] {
        let migrated = migrate(version, Err(host_error("s")), None).unwrap();
        assert_eq!(migrated.books, None);
    }
}

#[test]
fn migration_can_change_the_owner() {
    let config = init("owner").config;
    let new_owner = Some((Ok(config.clone()), Ok("new".to_string())));
    let migrated = migrate_from(false, Ok(old_supply()), new_owner).unwrap();
    assert_eq!(migrated.books, None);
    assert_eq!(migrated.config, Some(Config { owner: "new".to_string(), ..config }));
}

#[test]
fn migration_can_fail() {
    let new_owner = || Some((Ok(init("owner").config), Ok("new".to_string())));
    assert_eq!(
        migrate("1.0", Ok(old_supply()), new_owner()),
        Err(ContractError::Std(BasicError::GenericErr {
            msg: "Semver: unexpected end of input while parsing minor version number".to_string()
        }))
    );
    assert_eq!(migrate_from(true, Err(host_error("s")), new_owner()), host("s"));
    let busy = OldSupply {
        unbonding: vec![OldUnbonding {
            amount: 4,
            expiration: OldExpiration::AtTime(now()),
            validator: "val1".to_string(),
        }],
        ..old_supply()
    };
    assert_eq!(migrate_from(true, Ok(busy), new_owner()), Err(ContractError::MigrationFailed));
    let no_config = Some((Err(host_error("c")), Err(host_error("o"))));
    assert_eq!(migrate_from(false, Ok(old_supply()), no_config), host("c"));
    let no_owner = Some((Ok(init("owner").config), Err(host_error("o"))));
    assert_eq!(migrate_from(true, Ok(old_supply()), no_owner), host("o"));
}
