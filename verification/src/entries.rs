//! The contract's entries as mathematical values, and what a creation or a
//! claim does to them.

use soroban_sdk::Address;
use vstd::prelude::*;

use crate::error::ForgeError;
use crate::linear::{lemma_settled_wf, VestingSchedule};
use crate::status::VestingStatus;
use crate::till::{Asked, Transfer};
use crate::tranche::{lemma_settled_tranche_wf, TrancheSchedule};

verus! {

/// A stored schedule of either kind.
pub enum Stored {
    /// A linear (cliff and ramp) schedule.
    Linear(VestingSchedule),
    /// A tranche (discrete unlock table) schedule.
    Tranche(TrancheSchedule),
}

impl Stored {
    /// Recipient of the tokens.
    pub open spec fn beneficiary(self) -> Address {
        match self {
            Stored::Linear(schedule) => schedule.beneficiary,
            Stored::Tranche(schedule) => schedule.beneficiary,
        }
    }

    /// Token contract whose balance is drawn down.
    pub open spec fn token(self) -> Address {
        match self {
            Stored::Linear(schedule) => schedule.token,
            Stored::Tranche(schedule) => schedule.token,
        }
    }

    /// Amount that vests in all.
    pub open spec fn total_amount(self) -> i128 {
        match self {
            Stored::Linear(schedule) => schedule.total_amount,
            Stored::Tranche(schedule) => schedule.total_amount,
        }
    }

    /// Amount already claimed.
    pub open spec fn claimed(self) -> i128 {
        match self {
            Stored::Linear(schedule) => schedule.claimed,
            Stored::Tranche(schedule) => schedule.claimed,
        }
    }

    /// Lifecycle state as of the last write.
    pub open spec fn status(self) -> VestingStatus {
        match self {
            Stored::Linear(schedule) => schedule.status,
            Stored::Tranche(schedule) => schedule.status,
        }
    }

    /// What holds of every record that the contract writes.
    pub open spec fn wf(self) -> bool {
        match self {
            Stored::Linear(schedule) => schedule.wf(),
            Stored::Tranche(schedule) => schedule.wf(),
        }
    }

    /// Amount vested at ledger time `now`.
    pub open spec fn vested_at(self, now: u64) -> int {
        match self {
            Stored::Linear(schedule) => schedule.vested_at(now),
            Stored::Tranche(schedule) => schedule.vested_at(now),
        }
    }

    /// Amount claimable at ledger time `now`.
    pub open spec fn claimable_at(self, now: u64) -> int {
        match self {
            Stored::Linear(schedule) => schedule.claimable_at(now),
            Stored::Tranche(schedule) => schedule.claimable_at(now),
        }
    }

    /// Whether there is a claimable amount at `now`.
    pub open spec fn claimable_in_range(self, now: u64) -> bool {
        match self {
            Stored::Linear(schedule) => schedule.claimable_in_range(now),
            Stored::Tranche(schedule) => schedule.claimable_in_range(now),
        }
    }

    /// Whether `transfer` pays, out of the balance of `contract`, exactly what
    /// is claimable at `now`.
    pub open spec fn owes(self, now: u64, contract: Address, transfer: Transfer) -> bool {
        match self {
            Stored::Linear(schedule) => schedule.owes(now, contract, transfer),
            Stored::Tranche(schedule) => schedule.owes(now, contract, transfer),
        }
    }

    /// Lifecycle state at ledger time `now`.
    pub open spec fn status_at(self, now: u64) -> VestingStatus {
        match self {
            Stored::Linear(schedule) => schedule.status_at(now),
            Stored::Tranche(schedule) => schedule.status_at(now),
        }
    }

    /// Whether the lifecycle state can be derived.
    pub open spec fn status_in_range(self) -> bool {
        match self {
            Stored::Linear(schedule) => schedule.status_in_range(),
            Stored::Tranche(_) => true,
        }
    }

    /// The record once the amount claimable at `now` has been paid out.
    pub open spec fn settled_at(self, now: u64) -> Stored {
        match self {
            Stored::Linear(schedule) => Stored::Linear(schedule.settled_at(now)),
            Stored::Tranche(schedule) => Stored::Tranche(schedule.settled_at(now)),
        }
    }
}

/// What the contract stores, as mathematical maps.
#[verifier::ext_equal]
pub struct Entries {
    /// The id that was allocated last, zero before the first.
    pub count: u64,
    /// The linear records by id.
    pub schedules: Map<u64, VestingSchedule>,
    /// The tranche records by id.
    pub tranche_schedules: Map<u64, TrancheSchedule>,
}

impl Entries {
    /// The record under `schedule_id`, the linear one first.
    pub open spec fn stored(self, schedule_id: u64) -> Option<Stored> {
        if self.schedules.contains_key(schedule_id) {
            Some(Stored::Linear(self.schedules[schedule_id]))
        } else if self.tranche_schedules.contains_key(schedule_id) {
            Some(Stored::Tranche(self.tranche_schedules[schedule_id]))
        } else {
            None
        }
    }

    /// What holds of the entries that the contract writes: the two kinds
    /// share no id, every id came from the counter, and every record is
    /// well-formed.
    pub open spec fn wf(self) -> bool {
        &&& forall|id: u64| #[trigger]
            self.schedules.contains_key(id) ==> {
                &&& 0 < id <= self.count
                &&& self.schedules[id].wf()
                &&& !self.tranche_schedules.contains_key(id)
            }
        &&& forall|id: u64| #[trigger]
            self.tranche_schedules.contains_key(id) ==> {
                &&& 0 < id <= self.count
                &&& self.tranche_schedules[id].wf()
                &&& !self.schedules.contains_key(id)
            }
    }

    /// The entries with `record` stored under the next id.
    pub open spec fn created(self, record: Stored) -> Entries {
        let id = (self.count + 1) as u64;
        Entries { count: id, ..self.with(id, record) }
    }

    /// The entries with `record` written under `schedule_id`.
    pub open spec fn with(self, schedule_id: u64, record: Stored) -> Entries {
        match record {
            Stored::Linear(schedule) => Entries {
                schedules: self.schedules.insert(schedule_id, schedule),
                ..self
            },
            Stored::Tranche(schedule) => Entries {
                tranche_schedules: self.tranche_schedules.insert(schedule_id, schedule),
                ..self
            },
        }
    }

    /// Whether a claim on `schedule_id` at `now` may go ahead with the
    /// authorization of `caller`: one that gets as far as a payout needs the
    /// beneficiary's.
    pub open spec fn may_claim(self, schedule_id: u64, now: u64, caller: Address) -> bool {
        self.stored(schedule_id) matches Some(record) ==> record.claimable_in_range(now) ==> caller
            == record.beneficiary()
    }

    /// Whether `transfer` pays, out of the balance of `contract`, exactly what
    /// a claim on `schedule_id` at `now` owes.
    pub open spec fn owes(
        self,
        schedule_id: u64,
        now: u64,
        contract: Address,
        transfer: Transfer,
    ) -> bool {
        self.stored(schedule_id) matches Some(record) && record.owes(now, contract, transfer)
    }

    /// Whether a claim on `schedule_id` at `now` owes anything.
    pub open spec fn payout_due(self, schedule_id: u64, now: u64) -> bool {
        &&& self.stored(schedule_id) matches Some(record)
        &&& record.claimable_in_range(now)
        &&& record.claimable_at(now) != 0
    }

    /// The entries after a claim on `schedule_id` at `now` that was answered
    /// with `r`, given whether the token contract `transferred` the amount
    /// owed. Without a payout due that makes no difference.
    pub open spec fn claimed_to(
        self,
        schedule_id: u64,
        now: u64,
        transferred: bool,
        r: Result<i128, ForgeError>,
        after: Entries,
    ) -> bool {
        match self.stored(schedule_id) {
            None => r == Err::<i128, ForgeError>(ForgeError::NotFound) && after == self,
            Some(record) => if !record.claimable_in_range(now) {
                r == Err::<i128, ForgeError>(ForgeError::ArithmeticOverflow) && after == self
            } else if record.claimable_at(now) == 0 {
                r == Ok::<i128, ForgeError>(0) && after == self
            } else if !transferred {
                r == Err::<i128, ForgeError>(ForgeError::TokenTransferFailed) && after == self
            } else {
                &&& r == Ok::<i128, ForgeError>(record.claimable_at(now) as i128)
                &&& after == self.with(schedule_id, record.settled_at(now))
            },
        }
    }

    /// What a claim on `schedule_id` at `now`, paid out of the balance of
    /// `contract`, does: to the entries, which become `after`, and to the log
    /// of transfers asked for, which grows from `log` to `log_after`.
    ///
    /// Where a payout is due, exactly one transfer is asked for, of exactly
    /// what is owed, and its outcome settles the claim. Otherwise none is.
    pub open spec fn claimed_through(
        self,
        contract: Address,
        schedule_id: u64,
        now: u64,
        log: Seq<Asked>,
        r: Result<i128, ForgeError>,
        after: Entries,
        log_after: Seq<Asked>,
    ) -> bool {
        if self.payout_due(schedule_id, now) {
            &&& log_after == log.push(log_after.last())
            &&& self.owes(schedule_id, now, contract, log_after.last().transfer)
            &&& self.claimed_to(schedule_id, now, log_after.last().went_through(), r, after)
        } else {
            &&& log_after == log
            &&& self.claimed_to(schedule_id, now, false, r, after)
        }
    }
}

/// Writing the settled record back keeps well-formed entries well-formed.
pub proof fn lemma_claim_wf(entries: Entries, schedule_id: u64, now: u64)
    ensures
        entries.wf() && entries.stored(schedule_id) is Some ==> entries.with(
            schedule_id,
            entries.stored(schedule_id)->0.settled_at(now),
        ).wf(),
{
    if entries.wf() {
        match entries.stored(schedule_id) {
            Some(Stored::Linear(schedule)) => lemma_settled_wf(schedule, now),
            Some(Stored::Tranche(schedule)) => lemma_settled_tranche_wf(schedule, now),
            None => {},
        }
    }
}

} // verus!
