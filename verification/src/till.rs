//! The way to the token contracts, and the evidence of what came of it.
//!
//! Code elsewhere can make none of that evidence: a receipt comes only from a
//! transfer that was carried out, and the log of a till grows only with what a
//! token contract, or the lack of one, answered.

use soroban_sdk::{Address, Env};
use vstd::prelude::*;

verus! {

/// A movement of `amount` of `token`.
pub struct Transfer {
    /// Token contract that holds the balances.
    pub token: Address,
    /// Whose balance is drawn down.
    pub from: Address,
    /// Who is paid.
    pub to: Address,
    /// How much is moved.
    pub amount: i128,
}

/// Proof of a transfer that a token contract carried out. Only a successful
/// transfer makes one.
pub struct Receipt {
    transfer: Transfer,
}

impl View for Receipt {
    type V = Transfer;

    closed spec fn view(&self) -> Transfer {
        self.transfer
    }
}

/// How a transfer that was asked for was answered.
pub enum Answer {
    /// There is no contract under the token's address, so none was called.
    NoContract,
    /// The token contract was called and did not carry the transfer out.
    Refused,
    /// The token contract carried the transfer out.
    Done,
}

/// A transfer that was asked for, and the answer.
pub struct Asked {
    /// What was asked for.
    pub transfer: Transfer,
    /// What came of it.
    pub answer: Answer,
}

impl Asked {
    /// Whether the token contract carried the transfer out.
    pub open spec fn went_through(self) -> bool {
        self.answer is Done
    }
}

/// A token contract that was found under its address.
pub struct TokenContract {
    address: Address,
}

impl View for TokenContract {
    type V = Address;

    closed spec fn view(&self) -> Address {
        self.address
    }
}

/// The finding that an address is not that of a contract.
pub struct NoContract {
    address: Address,
}

impl View for NoContract {
    type V = Address;

    closed spec fn view(&self) -> Address {
        self.address
    }
}

/// The way to the token contracts of one host environment. Its view is the log
/// of the transfers asked for through it, oldest first. Every transfer takes
/// one, so nothing moves that the log does not show.
pub struct Till {
    env: Env,
    asked: Ghost<Seq<Asked>>,
}

impl View for Till {
    type V = Seq<Asked>;

    closed spec fn view(&self) -> Seq<Asked> {
        self.asked@
    }
}

impl Till {
    /// A till on `env` through which nothing has been asked for. Every address
    /// that it is used with has to belong to `env`, as all addresses of one
    /// invocation do.
    pub fn new(env: Env) -> (till: Self)
        ensures
            till@ == Seq::<Asked>::empty(),
    {
        Till { env, asked: Ghost(Seq::empty()) }
    }

    /// Answer a request for a transfer of a token that has no contract: it is
    /// logged, and nothing is called.
    pub(crate) fn decline(
        &mut self,
        missing: NoContract,
        from: &Address,
        to: &Address,
        amount: i128,
    )
        ensures
            final(self)@ == old(self)@.push(
                (Asked {
                    transfer: (Transfer { token: missing@, from: *from, to: *to, amount }),
                    answer: Answer::NoContract,
                }),
            ),
    {
        proof {
            let transfer = Transfer { token: missing@, from: *from, to: *to, amount };
            self.asked@ = self.asked@.push(Asked { transfer, answer: Answer::NoContract });
        }
    }
}

/// Calls `executable` of `soroban_sdk::Address`, which tells what kind of code
/// stands behind an address, and hands out the finding for `token`: a contract,
/// of either kind, or none, for an account and for an address that holds
/// nothing.
///
/// Which of the two it is rests on what the ledger holds, and is left open.
#[verifier::external_body]
pub(crate) fn token_contract(token: &Address) -> (found: Result<TokenContract, NoContract>)
    ensures
        found matches Ok(contract) ==> contract@ == *token,
        found matches Err(missing) ==> missing@ == *token,
{
    match token.executable() {
        Some(soroban_sdk::Executable::Wasm(_)) => Ok(TokenContract { address: token.clone() }),
        Some(soroban_sdk::Executable::StellarAsset) => Ok(TokenContract { address: token.clone() }),
        Some(soroban_sdk::Executable::Account) => Err(NoContract { address: token.clone() }),
        None => Err(NoContract { address: token.clone() }),
    }
}

/// Calls `try_transfer` of `soroban_sdk::token::TokenClient`, which asks the
/// contract `token` to move `amount` from `from` to `to`, and hands out a
/// receipt for exactly that where it answered with success. The log of `till`
/// grows by this one request and its outcome.
///
/// Every failure that the host lets a caller handle, typed or not, is one
/// `None`. On a call to an account the host aborts instead of answering, which
/// is why a token contract has to be found first. The addresses belong to the
/// environment of `till`.
///
/// Whether the transfer succeeds is left open: that rests on the balances and
/// the code that the ledger holds. An empty transfer is never asked for.
#[verifier::external_body]
pub(crate) fn token_transfer(
    till: &mut Till,
    token: &TokenContract,
    from: &Address,
    to: &Address,
    amount: i128,
) -> (receipt: Option<Receipt>)
    requires
        amount != 0,
    ensures
        receipt matches Some(receipt) ==> receipt@ == (Transfer {
            token: token@,
            from: *from,
            to: *to,
            amount,
        }),
        final(till)@ == old(till)@.push(
            (Asked {
                transfer: (Transfer { token: token@, from: *from, to: *to, amount }),
                answer: if receipt is Some {
                    Answer::Done
                } else {
                    Answer::Refused
                },
            }),
        ),
{
    let token = &token.address;
    let client = soroban_sdk::token::TokenClient::new(&till.env, token);
    match client.try_transfer(from, to, &amount) {
        Ok(Ok(())) => Some(
            Receipt {
                transfer: Transfer { token: token.clone(), from: from.clone(), to: to.clone(), amount },
            },
        ),
        _ => None,
    }
}

} // verus!
