//! Paying claims out through the token contract.

use soroban_sdk::Address;
use vstd::prelude::*;

use crate::contract::Vesting;
use crate::till::{token_contract, token_transfer, Answer, Receipt, Till, Transfer};

verus! {

/// Evidence that the host has authorized the running invocation on behalf of
/// the address `by`. It is made from an address right after the host has been
/// asked for its authorization, which ends the invocation where it is missing.
pub struct Authorization {
    /// Who authorized the invocation.
    pub by: Address,
}

/// What a claim owes: `amount` of `token` to `beneficiary`, who has to
/// authorize the claim.
pub struct Payout<'a> {
    /// Who has to authorize the claim, and is paid.
    pub beneficiary: &'a Address,
    /// Token contract that holds the balance.
    pub token: &'a Address,
    /// The vested-but-unclaimed amount.
    pub amount: i128,
}

impl<'a> Payout<'a> {
    /// The transfer that pays this out of the balance of `contract`.
    pub open spec fn transfer_from(self, contract: Address) -> Transfer {
        Transfer {
            token: *self.token,
            from: contract,
            to: *self.beneficiary,
            amount: self.amount,
        }
    }
}

impl Vesting {
    /// Pay `payout` out of the balance of `contract`, with the authorization
    /// of its beneficiary: one request for a transfer of exactly what is owed,
    /// and none for an empty payout. A token that is no contract is never
    /// called, and answers the request with a failure.
    ///
    /// The addresses have to belong to the environment of `till`.
    pub fn pay(
        till: &mut Till,
        contract: &Address,
        payout: &Payout<'_>,
        authorization: &Authorization,
    ) -> (receipt: Option<Receipt>)
        requires
            authorization.by == *payout.beneficiary,
        ensures
            payout.amount == 0 ==> {
                &&& receipt is None
                &&& final(till)@ == old(till)@
            },
            payout.amount != 0 ==> {
                &&& final(till)@ == old(till)@.push(final(till)@.last())
                &&& final(till)@.last().transfer == payout.transfer_from(*contract)
                &&& final(till)@.last().went_through() <==> receipt is Some
                &&& final(till)@.last().transfer == (Transfer {
                    token: *payout.token,
                    from: *contract,
                    to: *payout.beneficiary,
                    amount: payout.amount,
                })
                &&& final(till)@.last().answer == Answer::Done <==> receipt is Some
            },
            receipt matches Some(receipt) ==> receipt@ == payout.transfer_from(*contract),
    {
        if payout.amount == 0 {
            return None;
        }
        match token_contract(payout.token) {
            Ok(token) => token_transfer(
                till,
                &token,
                contract,
                payout.beneficiary,
                payout.amount,
            ),
            Err(missing) => {
                till.decline(missing, contract, payout.beneficiary, payout.amount);
                None
            },
        }
    }
}

} // verus!
