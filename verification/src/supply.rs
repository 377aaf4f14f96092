//! The books of the pool, and what a share of it is worth.

use vstd::prelude::*;

use crate::decimal::{floor_ratio, Decimal, ONE};
use crate::error::{BasicError, ContractError};

verus! {

/// The books of the pool.
#[derive(Clone, Debug, PartialEq, Eq)]
pub struct Supply {
    /// The native token.
    pub bond_denom: String,
    /// The shares that are in circulation.
    pub issued: u128,
    /// The native tokens that are bonded to validators.
    pub total_bonded: u128,
    /// The native tokens that are owed to those who left the pool.
    pub claims: u128,
    /// The native tokens that are being released by validators.
    pub total_unbonding: u128,
}

impl Supply {
    /// The native tokens that belong to the holders of shares, when the hub has
    /// `balance` at hand.
    pub open spec fn assets(&self, balance: int) -> int {
        balance + self.total_bonded + self.total_unbonding - self.claims
    }

    /// The assets can be computed: they are not negative, and what they are
    /// computed from fits.
    pub open spec fn solvent(&self, balance: int) -> bool {
        &&& balance + self.total_bonded + self.total_unbonding <= u128::MAX
        &&& self.assets(balance) >= 0
    }

    /// The native tokens per share, in atomic units; one as long as there are no
    /// shares.
    pub open spec fn share_price(&self, balance: int) -> int {
        if self.issued == 0 {
            ONE as int
        } else {
            floor_ratio(self.assets(balance), ONE as int, self.issued as int)
        }
    }

    /// The shares per native token, in atomic units; one as long as there are no
    /// shares.
    pub open spec fn token_price(&self, balance: int) -> int {
        if self.issued == 0 {
            ONE as int
        } else {
            floor_ratio(self.issued as int, ONE as int, self.assets(balance))
        }
    }

    /// The native tokens per share can be stated.
    pub open spec fn share_priced(&self, balance: int) -> bool {
        self.solvent(balance) && self.share_price(balance) <= u128::MAX
    }

    /// The shares per native token can be stated.
    pub open spec fn token_priced(&self, balance: int) -> bool {
        &&& self.solvent(balance)
        &&& self.issued != 0 ==> self.assets(balance) != 0
        &&& self.token_price(balance) <= u128::MAX
    }

    /// The native tokens that `amount` shares are worth, rounded down.
    pub open spec fn worth(&self, amount: int, balance: int) -> int {
        floor_ratio(amount, self.share_price(balance), ONE as int)
    }

    /// The shares that `amount` native tokens buy, rounded down.
    pub open spec fn bought(&self, amount: int, balance: int) -> int {
        floor_ratio(amount, self.token_price(balance), ONE as int)
    }

    /// `amount` shares can be turned into a claim.
    pub open spec fn can_unbond(&self, amount: int, balance: int) -> bool {
        &&& self.share_priced(balance)
        &&& amount <= self.issued
        &&& self.worth(amount, balance) <= u128::MAX
        &&& self.claims + self.worth(amount, balance) <= u128::MAX
    }

    /// The books once `amount` shares have been turned into a claim.
    pub open spec fn unbonded(&self, amount: int, balance: int) -> Supply {
        Supply {
            claims: (self.claims + self.worth(amount, balance)) as u128,
            issued: (self.issued - amount) as u128,
            ..*self
        }
    }

    /// `paid` native tokens can be turned into shares.
    pub open spec fn can_bond(&self, paid: int, balance: int) -> bool {
        &&& self.token_priced(balance)
        &&& self.issued + self.bought(paid, balance) <= u128::MAX
    }

    /// The books once `paid` native tokens have been turned into shares.
    pub open spec fn bonded(&self, paid: int, balance: int) -> Supply {
        Supply { issued: (self.issued + self.bought(paid, balance)) as u128, ..*self }
    }

    /// Empty books.
    pub fn new(bond_denom: String) -> (r: Supply)
        ensures
            r == (Supply {
                bond_denom,
                issued: 0,
                total_bonded: 0,
                claims: 0,
                total_unbonding: 0,
            }),
    {
        Supply { bond_denom, issued: 0, total_bonded: 0, claims: 0, total_unbonding: 0 }
    }

    /// The native tokens that belong to the holders of shares.
    fn total_assets(&self, balance: u128) -> (r: Option<u128>)
        ensures
            r is Some <==> self.solvent(balance as int),
            r matches Some(assets) ==> assets == self.assets(balance as int),
    {
        match balance.checked_add(self.total_bonded) {
            Some(bonded) => match bonded.checked_add(self.total_unbonding) {
                Some(total) => total.checked_sub(self.claims),
                None => None,
            },
            None => None,
        }
    }

    /// The native tokens per share; `None` if that cannot be stated.
    pub fn tokens_per_share(&self, balance: u128) -> (r: Option<Decimal>)
        ensures
            r is Some <==> self.share_priced(balance as int),
            r matches Some(price) ==> price.atomics == self.share_price(balance as int),
    {
        match self.total_assets(balance) {
            Some(assets) => if self.issued == 0 {
                Some(Decimal::one())
            } else {
                Decimal::from_ratio(assets, self.issued)
            },
            None => None,
        }
    }

    /// The shares per native token; `None` if that cannot be stated.
    pub fn shares_per_token(&self, balance: u128) -> (r: Option<Decimal>)
        ensures
            r is Some <==> self.token_priced(balance as int),
            r matches Some(price) ==> price.atomics == self.token_price(balance as int),
    {
        match self.total_assets(balance) {
            Some(assets) => if self.issued == 0 {
                Some(Decimal::one())
            } else {
                Decimal::from_ratio(self.issued, assets)
            },
            None => None,
        }
    }

    /// Turns `paid` native tokens into shares and says how many; `None`, with the
    /// books as they were, if that is not possible.
    pub fn bond(&mut self, paid: u128, balance: u128) -> (r: Option<u128>)
        ensures
            r is Some <==> old(self).can_bond(paid as int, balance as int),
            r matches Some(issue) ==> issue == old(self).bought(paid as int, balance as int)
                && *final(self) == old(self).bonded(paid as int, balance as int),
            r is None ==> *final(self) == *old(self),
    {
        let price = match self.shares_per_token(balance) {
            Some(price) => price,
            None => {
                return None;
            },
        };
        let issue = match price.of(paid) {
            Some(issue) => issue,
            None => {
                return None;
            },
        };
        match self.issued.checked_add(issue) {
            Some(issued) => {
                self.issued = issued;
                Some(issue)
            },
            None => None,
        }
    }

    /// Turns `amount` shares into a claim and says of how many native tokens;
    /// `None`, with the books as they were, if that is not possible.
    pub fn unbond(&mut self, amount: u128, balance: u128) -> (r: Option<u128>)
        ensures
            r is Some <==> old(self).can_unbond(amount as int, balance as int),
            r matches Some(native) ==> native == old(self).worth(amount as int, balance as int)
                && *final(self) == old(self).unbonded(amount as int, balance as int),
            r is None ==> *final(self) == *old(self),
    {
        let price = match self.tokens_per_share(balance) {
            Some(price) => price,
            None => {
                return None;
            },
        };
        if amount > self.issued {
            return None;
        }
        let native = match price.of(amount) {
            Some(native) => native,
            None => {
                return None;
            },
        };
        match self.claims.checked_add(native) {
            Some(claims) => {
                self.claims = claims;
                self.issued = self.issued - amount;
                Some(native)
            },
            None => None,
        }
    }

    /// Takes what has been paid out off the claims.
    pub fn claim(&mut self, to_send: u128) -> (r: Result<(), ContractError>)
        ensures
            to_send <= old(self).claims ==> r is Ok && *final(self) == (Supply {
                claims: (old(self).claims - to_send) as u128,
                ..*old(self)
            }),
            to_send > old(self).claims ==> r == Err::<(), ContractError>(
                ContractError::Std(
                    BasicError::Underflow {
                        minuend: old(self).claims,
                        subtrahend: to_send,
                    },
                ),
            ) && *final(self) == *old(self),
    {
        if to_send > self.claims {
            return Err(
                ContractError::Std(
                    BasicError::Underflow { minuend: self.claims, subtrahend: to_send },
                ),
            );
        }
        self.claims = self.claims - to_send;
        Ok(())
    }
}

} // verus!
