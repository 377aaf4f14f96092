//! The funds that come with a call.

use vstd::prelude::*;

use crate::error::PaymentError;
use crate::response::Coin;

verus! {

/// Who makes a call, and what is sent along.
#[derive(Clone, Debug, PartialEq, Eq)]
pub struct MessageInfo {
    pub sender: String,
    pub funds: Vec<Coin>,
}

/// The funds are a single amount, not zero, of `denom`.
pub open spec fn pays(funds: Seq<Coin>, denom: Seq<char>) -> bool {
    funds.len() == 1 && funds[0].amount != 0 && funds[0].denom@ == denom
}

/// Why the funds are not a payment in `denom`: there are none, there are several
/// kinds, or it is another kind.
pub open spec fn payment_error(funds: Seq<Coin>, denom: Seq<char>, error: PaymentError) -> bool {
    if funds.len() == 0 || (funds.len() == 1 && funds[0].amount == 0) {
        error is NoFunds
    } else if funds.len() > 1 {
        error is MultipleDenoms
    } else {
        error matches PaymentError::MissingDenom(missing) && missing@ == denom
    }
}

/// `must_pay` of `cw-utils`: the amount of `denom` that was sent along, if it is not
/// zero and nothing else was; otherwise which of these does not hold.
#[verifier::external_body]
pub(crate) fn must_pay(funds: &Vec<Coin>, denom: &str) -> (r: Result<u128, PaymentError>)
    ensures
        match r {
            Ok(amount) => pays(funds@, denom@) && amount == funds@[0].amount,
            Err(error) => !pays(funds@, denom@) && payment_error(funds@, denom@, error),
        },
{
    let funds = funds.iter().map(|c| cosmwasm_std::coin(c.amount, c.denom.as_str())).collect();
    let info = cosmwasm_std::MessageInfo { sender: cosmwasm_std::Addr::unchecked(""), funds };
    cw_utils::must_pay(&info, denom).map(|amount| amount.u128()).map_err(|error| match error {
        cw_utils::PaymentError::MissingDenom(denom) => PaymentError::MissingDenom(denom),
        cw_utils::PaymentError::ExtraDenom(denom) => PaymentError::ExtraDenom(denom),
        cw_utils::PaymentError::MultipleDenoms {} => PaymentError::MultipleDenoms,
        cw_utils::PaymentError::NoFunds {} => PaymentError::NoFunds,
        cw_utils::PaymentError::NonPayable {} => PaymentError::NonPayable,
    })
}

} // verus!
