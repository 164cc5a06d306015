use vstd::prelude::*;

verus! {

/// `soroban_sdk::Address`, the host's opaque identifier of an account or a
/// contract. Nothing is claimed of it: schedules only carry addresses, and no
/// rule of the library looks inside one.
#[verifier::external_type_specification]
#[verifier::external_body]
pub struct ExAddress(soroban_sdk::Address);

/// `soroban_sdk::Env`, the host environment that an invocation runs in. Nothing
/// is claimed of it: the library only holds one to reach token contracts.
#[verifier::external_type_specification]
#[verifier::external_body]
pub struct ExEnv(soroban_sdk::Env);

/// `Clone` of `soroban_sdk::Address`, which the crate derives: the copy holds
/// the same host handle, so it is the same address.
pub assume_specification[ <soroban_sdk::Address as Clone>::clone ](
    address: &soroban_sdk::Address,
) -> (copy: soroban_sdk::Address)
    ensures
        copy == *address,
;

} // verus!
