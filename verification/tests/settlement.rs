//! Reinvestment and settlement.

use wynd_lsd_hub::decimal::Decimal;
use wynd_lsd_hub::error::{BasicError, ContractError};
use wynd_lsd_hub::execute::reinvest;
use wynd_lsd_hub::hub::{Hub, StakeInfo, Unbonding, UnbondingEntry};
use wynd_lsd_hub::reply::{after_withdraw_rewards, checked_after_withdraw_rewards};
use wynd_lsd_hub::response::{Coin, CosmosMsg, ReplyOn, Response, SubMsg};
use wynd_lsd_hub::split::{absorb, give, portion_out, take};
use wynd_lsd_hub::stakes::{collect, drop_zeros, set_stake, stake, sum_entries};
use wynd_lsd_hub::state::{Config, Timestamp};
use wynd_lsd_hub::supply::Supply;

const START: u64 = 1_000_000;

fn at(seconds: u64) -> Timestamp {
    Timestamp { nanos: seconds * 1_000_000_000 + 5 }
}

fn hub() -> Hub {
    Hub {
        config: Config {
            token_contract: "token".to_string(),
            treasury: "treasury".to_string(),
            commission: Decimal::percent(10),
            epoch_period: 3600,
            unbond_period: 10_000,
            owner: "owner".to_string(),
            next_epoch: START,
            next_unbond: START,
            max_concurrent_unbondings: 7,
            liquidity_discount: Decimal::percent(4),
        },
        supply: Supply::new("ufun".to_string()),
        stake_info: StakeInfo {
            validators: vec![
                ("c".to_string(), Decimal { atomics: 333_333_333_333_333_333 }),
                ("a".to_string(), Decimal { atomics: 666_666_666_666_666_666 }),
                ("b".to_string(), Decimal { atomics: 1 }),
            ],
        },
        bonded: vec![],
        unbonding: vec![],
        tmp_balance: Some(0),
    }
}

fn plain(msg: CosmosMsg) -> SubMsg {
    SubMsg { id: 0, msg, reply_on: ReplyOn::Never }
}

fn coin(amount: u128) -> Coin {
    Coin { denom: "ufun".to_string(), amount }
}

fn send(amount: u128) -> SubMsg {
    plain(CosmosMsg::Send { to_address: "treasury".to_string(), amount: coin(amount) })
}

fn delegate(validator: &str, amount: u128) -> SubMsg {
    plain(CosmosMsg::Delegate { validator: validator.to_string(), amount: coin(amount) })
}

fn undelegate(validator: &str, amount: u128) -> SubMsg {
    plain(CosmosMsg::Undelegate { validator: validator.to_string(), amount: coin(amount) })
}

fn entry(validator: &str, amount: u128) -> (String, u128) {
    (validator.to_string(), amount)
}

/// What the shares stand for when the hub has `balance` at hand.
fn assets(supply: &Supply, balance: u128) -> u128 {
    balance + supply.total_bonded + supply.total_unbonding - supply.claims
}

#[test]
fn nothing_at_hand_settles_nothing() {
    let mut hub = hub();
    hub.tmp_balance = Some(100);
    hub.supply.claims = 100;
    let before = hub.clone();
    assert_eq!(after_withdraw_rewards(&mut hub, 0, at(START)).unwrap(), Response::new());
    assert_eq!(hub, before);
}

#[test]
fn rewards_need_a_beginning() {
    let mut hub = hub();
    hub.tmp_balance = None;
    let before = hub.clone();
    let missing = || ContractError::Std(BasicError::NotFound);
    assert_eq!(after_withdraw_rewards(&mut hub, 1000, at(START)), Err(missing()));
    assert_eq!(checked_after_withdraw_rewards(&mut hub, 1000, at(START)), Err(missing()));
    assert_eq!(after_withdraw_rewards(&mut hub, 0, at(START)), Ok(Response::new()));
    assert_eq!(hub, before);
    // a reinvestment notes what is at hand
    assert!(reinvest(&mut hub, Ok(1000), at(START)).is_ok());
    assert_eq!(hub.tmp_balance, Some(1000));
}

#[test]
fn surplus_is_delegated_by_weight() {
    let mut hub = hub();
    hub.tmp_balance = Some(900);
    hub.supply.claims = 190;
    hub.supply.total_bonded = 50;
    hub.bonded = vec![entry("a", 50)];
    let before = hub.clone();
    let res = after_withdraw_rewards(&mut hub, 1000, at(START)).unwrap();
    // 10 commission, 990 left, 800 of them surplus: 266 and 533, one lost by rounding
    assert_eq!(res.messages, vec![send(10), delegate("c", 267), delegate("a", 533)]);
    assert_eq!(hub.bonded, vec![entry("a", 583), entry("c", 267)]);
    assert_eq!(hub.supply.total_bonded, 850);
    assert_eq!(hub.config, before.config);
    // the claims stay covered, and only the commission is gone
    assert_eq!(1000 - 10 - 800, hub.supply.claims);
    assert_eq!(assets(&hub.supply, 190), assets(&before.supply, 1000) - 10);
}

#[test]
fn commission_that_rounds_to_nothing_is_not_sent() {
    let mut hub = hub();
    hub.tmp_balance = Some(991);
    let res = after_withdraw_rewards(&mut hub, 1000, at(START)).unwrap();
    assert_eq!(res.messages, vec![delegate("c", 334), delegate("a", 666)]);
}

#[test]
fn half_of_the_rewards_reach_the_holders() {
    let mut hub = hub();
    hub.config.commission = Decimal::percent(50);
    hub.supply.issued = 60;
    hub.tmp_balance = Some(90);
    let before = hub.supply.tokens_per_share(90).unwrap();
    let res = after_withdraw_rewards(&mut hub, 101, at(START)).unwrap();
    assert_eq!(res.messages[0], send(5));
    assert_eq!(hub.supply.total_bonded, 96);
    let after = hub.supply.tokens_per_share(0).unwrap();
    assert!(before.atomics < after.atomics);
}

#[test]
fn missing_tokens_are_undelegated_by_weight() {
    let mut hub = hub();
    hub.tmp_balance = Some(100);
    hub.supply.claims = 300;
    hub.supply.total_bonded = 1000;
    hub.bonded = vec![entry("a", 600), entry("b", 300), entry("c", 100)];
    let before = hub.clone();
    let res = after_withdraw_rewards(&mut hub, 100, at(START + 17)).unwrap();
    // 200 are missing: 66 and 133, one lost by rounding
    assert_eq!(res.messages, vec![undelegate("c", 67), undelegate("a", 133)]);
    assert_eq!(hub.bonded, vec![entry("a", 467), entry("b", 300), entry("c", 33)]);
    assert_eq!(hub.supply.total_bonded, 800);
    assert_eq!(hub.supply.total_unbonding, 200);
    assert_eq!(
        hub.unbonding,
        vec![UnbondingEntry {
            time: START + 17 + 10_000,
            unbondings: vec![
                Unbonding { validator: "c".to_string(), amount: 67 },
                Unbonding { validator: "a".to_string(), amount: 133 },
            ],
        }]
    );
    // a seventh of the period, rounded up
    assert_eq!(hub.config.next_unbond, START + 17 + 1429);
    assert_eq!(hub.config.next_epoch, before.config.next_epoch);
    assert_eq!(assets(&hub.supply, 100), assets(&before.supply, 100));
    // the claims are covered now
    let res = after_withdraw_rewards(&mut hub, 100, at(START + 18)).unwrap();
    assert_eq!(res, Response::new());
}

#[test]
fn rounding_is_taken_from_the_first_with_enough_stake() {
    let mut hub = hub();
    hub.tmp_balance = Some(100);
    hub.supply.claims = 300;
    hub.supply.total_bonded = 500;
    hub.bonded = vec![entry("a", 400), entry("b", 34), entry("c", 66)];
    let res = after_withdraw_rewards(&mut hub, 100, at(START)).unwrap();
    assert_eq!(res.messages, vec![undelegate("c", 66), undelegate("a", 134)]);
    // what is empty is left out
    assert_eq!(hub.bonded, vec![entry("a", 266), entry("b", 34)]);
    assert_eq!(hub.supply.total_bonded, 300);
}

#[test]
fn releases_wait_for_their_turn() {
    let mut hub = hub();
    hub.config.next_unbond = START + 1;
    hub.tmp_balance = Some(100);
    hub.supply.claims = 300;
    hub.supply.total_bonded = 1000;
    hub.bonded = vec![entry("a", 600), entry("b", 300), entry("c", 100)];
    let before = hub.clone();
    assert_eq!(after_withdraw_rewards(&mut hub, 100, at(START)).unwrap(), Response::new());
    assert_eq!(hub, before);
    assert_eq!(after_withdraw_rewards(&mut hub, 100, at(START + 1)).unwrap().messages.len(), 2);
}

#[test]
fn no_more_releases_than_allowed_are_under_way() {
    let mut config = hub().config;
    let mut times = vec![];
    let mut time = START;
    while times.len() < 20 {
        if config.next_unbond_after(at(time)).is_ok() {
            times.push(time);
        } else {
            assert_eq!(
                config.next_unbond_after(at(time)),
                Err(ContractError::UnbondNotReached { next_unbond: config.next_unbond })
            );
        }
        time += 1;
    }
    for i in 0..13 {
        assert!(times[i] + 10_000 <= times[i + 7]);
    }
}

#[test]
fn released_stake_is_struck_out() {
    let mut hub = hub();
    hub.supply.claims = 50;
    hub.supply.total_unbonding = 60;
    let list = |amount| vec![Unbonding { validator: "a".to_string(), amount }];
    hub.unbonding = vec![
        UnbondingEntry { time: START, unbondings: list(20) },
        UnbondingEntry { time: START + 1, unbondings: list(40) },
    ];
    assert!(hub.valid());
    assert_eq!(hub.current_supply(at(START - 1)), hub.supply);
    assert_eq!(hub.current_supply(at(START)).total_unbonding, 40);
    assert_eq!(hub.current_supply(at(START + 1)).total_unbonding, 0);
    let mut at_once = hub.clone();
    at_once.clean(at(START + 1));
    hub.clean(at(START));
    assert_eq!(hub.unbonding.len(), 1);
    hub.clean(at(START + 1));
    assert_eq!(hub, at_once);
    assert_eq!(hub.unbonding, vec![]);
}

#[test]
fn no_second_has_two_entries() {
    let mut hub = hub();
    let empty = |time| UnbondingEntry { time, unbondings: vec![] };
    hub.unbonding = vec![empty(3), empty(1), empty(2)];
    assert!(hub.valid());
    hub.unbonding.push(empty(1));
    assert!(!hub.valid());
    hub.unbonding = vec![empty(7), empty(7)];
    assert!(!hub.valid());
}

#[test]
fn releases_of_one_second_replace_each_other() {
    let mut hub = hub();
    hub.supply.claims = 300;
    hub.supply.total_bonded = 1000;
    hub.supply.total_unbonding = 5;
    hub.bonded = vec![entry("a", 600), entry("b", 300), entry("c", 100)];
    hub.tmp_balance = Some(95);
    hub.unbonding = vec![UnbondingEntry {
        time: START + 10_000,
        unbondings: vec![Unbonding { validator: "b".to_string(), amount: 5 }],
    }];
    let res = after_withdraw_rewards(&mut hub, 95, at(START)).unwrap();
    assert_eq!(res.messages, vec![undelegate("c", 67), undelegate("a", 133)]);
    assert_eq!(hub.unbonding.len(), 1);
    assert_eq!(hub.unbonding[0].unbondings.len(), 2);
    assert_eq!(hub.supply.total_unbonding, 205);
    assert!(hub.valid());
}

#[test]
fn impossible_settlements_are_told() {
    let check = |hub: Hub, balance: u128| {
        let mut changed = hub.clone();
        assert_eq!(checked_after_withdraw_rewards(&mut changed, balance, at(START)), Ok(None));
        assert_eq!(changed, hub);
    };
    // less at hand than before the withdrawal
    let mut less = hub();
    less.tmp_balance = Some(101);
    check(less, 100);
    // nobody to delegate to
    let mut nobody = hub();
    nobody.stake_info.validators = vec![];
    check(nobody, 100);
    // weights of more than one
    let mut heavy = hub();
    heavy.stake_info.validators =
        vec![("a".to_string(), Decimal::percent(60)), ("b".to_string(), Decimal::percent(60))];
    check(heavy, 100);
    // not enough stake
    let mut poor = hub();
    poor.supply.claims = 300;
    poor.tmp_balance = Some(100);
    poor.bonded = vec![entry("a", 132), entry("b", 1), entry("c", 100)];
    check(poor.clone(), 100);
    // no stake at all with one of them
    poor.bonded = vec![entry("a", 600), entry("c", 100)];
    check(poor, 100);
    // more than fits
    let mut rich = hub();
    rich.supply.total_unbonding = u128::MAX;
    check(rich, 100);
}

#[test]
fn reinvestment_withdraws_all_rewards() {
    let mut hub = hub();
    hub.supply.total_bonded = 10;
    hub.bonded = vec![entry("a", 10)];
    hub.stake_info.validators = vec![
        ("a".to_string(), Decimal::percent(50)),
        ("b".to_string(), Decimal::percent(0)),
        ("c".to_string(), Decimal::percent(25)),
        ("d".to_string(), Decimal::percent(25)),
        ("e".to_string(), Decimal::percent(0)),
    ];
    let before = hub.clone();
    assert_eq!(
        reinvest(&mut hub, Ok(77), at(START - 1)),
        Err(ContractError::EpochNotReached { next_epoch: START })
    );
    assert!(reinvest(&mut hub, Err(cosmwasm_std::StdError::generic_err("b")), at(START)).is_err());
    assert_eq!(hub, before);

    let withdraw = |validator: &str, id, reply_on| SubMsg {
        id,
        msg: CosmosMsg::WithdrawDelegatorReward { validator: validator.to_string() },
        reply_on,
    };
    let res = reinvest(&mut hub, Ok(77), at(START + 3600)).unwrap();
    assert_eq!(
        res.messages,
        vec![
            withdraw("a", 3, ReplyOn::Error),
            withdraw("c", 3, ReplyOn::Error),
            withdraw("d", 2, ReplyOn::Always),
        ]
    );
    assert_eq!(hub.tmp_balance, Some(77));
    assert_eq!(hub.config.next_epoch, START + 7200);
    assert_eq!(
        reinvest(&mut hub, Ok(77), at(START + 7199)),
        Err(ContractError::EpochNotReached { next_epoch: START + 7200 })
    );
}

#[test]
fn reinvestment_without_stake_settles_at_once() {
    let mut hub = hub();
    let res = reinvest(&mut hub, Ok(300), at(START)).unwrap();
    // nothing of it is a reward
    assert_eq!(res.messages, vec![delegate("c", 101), delegate("a", 199)]);
    assert_eq!(hub.supply.total_bonded, 300);
}

#[test]
fn epochs_keep_their_rhythm() {
    let mut config = hub().config;
    assert!(config.next_epoch_after(at(START + 5 * 3600 + 1)).is_ok());
    assert_eq!(config.next_epoch, START + 6 * 3600);
    assert!(config.next_epoch_after(at(START + 6 * 3600)).is_ok());
    assert_eq!(config.next_epoch, START + 7 * 3600);
}

#[test]
fn stakes_are_kept_in_order() {
    let entries = vec![entry("b", 1), entry("ab", 2), entry("a", 3), entry("b", 0), entry("B", 5)];
    let mut ordered = collect(&entries);
    assert_eq!(ordered, vec![entry("B", 5), entry("a", 3), entry("ab", 2), entry("b", 0)]);
    assert_eq!(stake(&ordered, &"ab".to_string()), Some(2));
    assert_eq!(stake(&ordered, &"b".to_string()), Some(0));
    assert_eq!(stake(&ordered, &"c".to_string()), None);
    set_stake(&mut ordered, &"é".to_string(), 9);
    assert_eq!(ordered[4], entry("é", 9));
    assert_eq!(drop_zeros(&ordered).len(), 4);
    assert_eq!(sum_entries(&ordered), Some(19));
    assert_eq!(sum_entries(&vec![entry("a", u128::MAX), entry("b", 1)]), None);
}

#[test]
fn amounts_are_portioned_out() {
    let validators = hub().stake_info.validators;
    assert_eq!(portion_out(200, &validators), Some((vec![66, 133, 0], 1)));
    let entries = vec![entry("a", 133), entry("b", 7), entry("c", 66)];
    assert_eq!(absorb(vec![66, 133, 0], 1, &validators, &entries), Some(vec![66, 133, 1]));
    assert_eq!(absorb(vec![67, 133, 0], 1, &validators, &entries), None);
    assert_eq!(absorb(vec![67, 133, 0], 0, &validators, &entries), Some(vec![67, 133, 0]));
    let given = give(entries.clone(), &validators, &vec![1, 2, 3]);
    assert_eq!(given, Some(vec![entry("a", 135), entry("b", 10), entry("c", 67)]));
    assert_eq!(give(entries.clone(), &validators, &vec![u128::MAX, 2, 3]), None);
    let taken = take(entries.clone(), &validators, &vec![66, 2, 3]);
    assert_eq!(taken, Some(vec![entry("a", 131), entry("b", 4), entry("c", 0)]));
    assert_eq!(take(entries, &validators, &vec![67, 2, 3]), None);
}
