//! The books as earlier versions kept them.

use vstd::prelude::*;

use crate::state::Timestamp;

verus! {

/// When something ends.
#[derive(Clone, Copy, Debug, PartialEq, Eq, Structural)]
pub enum Expiration {
    AtHeight(u64),
    AtTime(Timestamp),
    Never,
}

/// Stake that is being released by one validator.
#[derive(Clone, Debug, PartialEq, Eq)]
pub struct OldUnbonding {
    pub amount: u128,
    pub expiration: Expiration,
    pub validator: String,
}

/// The books of the pool, together with the stakes and releases that have a place of
/// their own now.
#[derive(Clone, Debug, PartialEq, Eq)]
pub struct OldSupply {
    pub bond_denom: String,
    pub issued: u128,
    pub total_bonded: u128,
    pub bonded: Vec<(String, u128)>,
    pub claims: u128,
    pub unbonding: Vec<OldUnbonding>,
    pub total_unbonding: u128,
}

} // verus!
