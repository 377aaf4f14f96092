//! What can be wrong with a request.

use vstd::prelude::*;

verus! {

/// The error type of `cosmwasm-std`, carried through unopened.
#[verifier::external_type_specification]
#[verifier::external_body]
pub struct ExStdError(cosmwasm_std::StdError);

/// What a call to the chain came back with.
pub type HostResult<T> = Result<T, cosmwasm_std::StdError>;

/// Errors that are not about the hub itself.
#[derive(Debug, PartialEq)]
pub enum BasicError {
    /// Reported by the chain or by a serializer.
    Host(cosmwasm_std::StdError),
    GenericErr { msg: String },
    /// What was to be read has never been stored.
    NotFound,
    /// `subtrahend` was to be taken from the smaller `minuend`.
    Underflow { minuend: u128, subtrahend: u128 },
}

/// Why the funds sent along do not count as a payment.
#[derive(Debug, PartialEq, Eq)]
pub enum PaymentError {
    MissingDenom(String),
    ExtraDenom(String),
    MultipleDenoms,
    NoFunds,
    NonPayable,
}

/// Why the answer to a submessage cannot be used.
#[derive(Debug, PartialEq, Eq)]
pub enum ParseReplyError {
    SubMsgFailure(String),
    ParseFailure(String),
    /// The bytes that were to be a text.
    BrokenUtf8(Vec<u8>),
}

/// Everything that a request to the hub can be refused for.
#[derive(Debug, PartialEq)]
pub enum ContractError {
    Std(BasicError),
    Payment(PaymentError),
    ParseReply(ParseReplyError),
    Unauthorized,
    NotOwner,
    InvalidCommission,
    InvalidValidatorWeights,
    InvalidLiquidityDiscount,
    InvalidEpochPeriod,
    InvalidUnbondPeriod,
    InvalidMaxConcurrentUnbondings,
    InvalidToken,
    BondingDisabled,
    NothingToClaim,
    NoDelegationsFound,
    MigrationFailed,
    EpochNotReached { next_epoch: u64 },
    UnbondNotReached { next_unbond: u64 },
}

} // verus!
