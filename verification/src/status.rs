use vstd::prelude::*;

verus! {

/// Lifecycle state of a vesting schedule.
#[derive(Clone, Copy, Debug, PartialEq, Eq, Structural)]
pub enum VestingStatus {
    /// Before the cliff, or the first unlock, has been reached.
    Locked,
    /// Past the cliff, or the first unlock, with an amount left to claim.
    Vesting,
    /// Fully vested and claimed.
    Completed,
    /// Terminated before completion (reserved).
    Revoked,
}

impl VestingStatus {
    /// Whether this state can stand beside `claimed` out of `total_amount`:
    /// completed exactly when everything has been claimed, locked only while
    /// nothing has been, and never revoked.
    pub open spec fn agrees_with(self, claimed: int, total_amount: int) -> bool {
        &&& self is Completed <==> claimed == total_amount
        &&& self is Locked ==> claimed == 0
        &&& self !is Revoked
    }
}

} // verus!
