use vstd::prelude::*;

verus! {

/// Why a request was refused.
#[derive(Clone, Copy, Debug, PartialEq, Eq, Structural)]
pub enum ForgeError {
    /// A parameter is outside the range the contract accepts.
    InvalidInput,
    /// No schedule is stored under the requested id.
    NotFound,
    /// A checked computation left the range of its integer type.
    ArithmeticOverflow,
    /// The token contract did not carry out the payout.
    TokenTransferFailed,
}

} // verus!
