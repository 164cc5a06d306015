//! The contract: every stored schedule under one id space, and one claim path
//! for both kinds.

use soroban_sdk::Address;
use std::collections::BTreeMap;
use vstd::prelude::*;

use crate::entries::{lemma_claim_wf, Entries, Stored};
use crate::error::ForgeError;
use crate::linear::{new_schedule, valid_terms, VestingSchedule};
use crate::payment::{Authorization, Payout};
use crate::status::VestingStatus;
use crate::till::{Receipt, Till};
use crate::tranche::{
    lemma_prefix_sums, length_accepted, new_tranche_schedule, overflows, sum, valid_table, Tranche,
    TrancheSchedule,
};

verus! {

/// The entries of the vesting contract, held as plain values: the id counter
/// and the records of both kinds.
///
/// A shell around the library keeps the entries in the host's storage. For one
/// invocation it takes in the counter and the records under the id in
/// question, which are all that decides a call, and writes back what changed.
pub struct Vesting {
    count: u64,
    schedules: BTreeMap<u64, VestingSchedule>,
    tranche_schedules: BTreeMap<u64, TrancheSchedule>,
}

/// A stored schedule of either kind, as looked up by id.
pub enum StoredRef<'a> {
    /// A linear (cliff and ramp) schedule.
    Linear(&'a VestingSchedule),
    /// A tranche (discrete unlock table) schedule.
    Tranche(&'a TrancheSchedule),
}

impl<'a> View for StoredRef<'a> {
    type V = Stored;

    open spec fn view(&self) -> Stored {
        match self {
            StoredRef::Linear(schedule) => Stored::Linear(**schedule),
            StoredRef::Tranche(schedule) => Stored::Tranche(**schedule),
        }
    }
}

impl View for Vesting {
    type V = Entries;

    closed spec fn view(&self) -> Entries {
        Entries {
            count: self.count,
            schedules: self.schedules@,
            tranche_schedules: self.tranche_schedules@,
        }
    }
}

impl Vesting {
    /// A contract with no schedules.
    pub fn new() -> (contract: Self)
        ensures
            contract@.wf(),
            contract@.count == 0,
            contract@.schedules == Map::<u64, VestingSchedule>::empty(),
            contract@.tranche_schedules == Map::<u64, TrancheSchedule>::empty(),
    {
        Self::restore(None)
    }

    /// A contract whose counter entry holds `count`, absent before the first
    /// schedule, with no records yet.
    pub fn restore(count: Option<u64>) -> (contract: Self)
        ensures
            contract@.wf(),
            contract@.count == (match count {
                Some(n) => n,
                None => 0,
            }),
            contract@.schedules == Map::<u64, VestingSchedule>::empty(),
            contract@.tranche_schedules == Map::<u64, TrancheSchedule>::empty(),
    {
        Vesting {
            count: count.unwrap_or(0),
            schedules: BTreeMap::new(),
            tranche_schedules: BTreeMap::new(),
        }
    }

    /// Take in the linear record stored under `schedule_id`.
    pub fn put_schedule(&mut self, schedule_id: u64, schedule: VestingSchedule)
        ensures
            final(self)@ == old(self)@.with(schedule_id, Stored::Linear(schedule)),
    {
        self.schedules.insert(schedule_id, schedule);
    }

    /// Take in the tranche record stored under `schedule_id`.
    pub fn put_tranche_schedule(&mut self, schedule_id: u64, schedule: TrancheSchedule)
        ensures
            final(self)@ == old(self)@.with(schedule_id, Stored::Tranche(schedule)),
    {
        self.tranche_schedules.insert(schedule_id, schedule);
    }

    /// The id that was allocated last, zero before the first.
    pub fn count(&self) -> (count: u64)
        ensures
            count == self@.count,
    {
        self.count
    }

    /// Allocate the next id: one past the last, which becomes the last.
    pub fn next_id(&mut self) -> (r: Result<u64, ForgeError>)
        ensures
            r is Ok <==> old(self)@.count < u64::MAX,
            r matches Ok(id) ==> {
                &&& id == old(self)@.count + 1
                &&& final(self)@ == (Entries { count: id, ..old(self)@ })
            },
            r matches Err(e) ==> {
                &&& e == ForgeError::ArithmeticOverflow
                &&& final(self)@ == old(self)@
            },
    {
        match self.count.checked_add(1) {
            Some(id) => {
                self.count = id;
                Ok(id)
            },
            None => Err(ForgeError::ArithmeticOverflow),
        }
    }

    /// Create a linear schedule at ledger time `now`, with the authorization
    /// of its `beneficiary`, and return its id.
    pub fn create_schedule(
        &mut self,
        now: u64,
        beneficiary: Address,
        token: Address,
        total_amount: i128,
        cliff: u64,
        duration: u64,
        authorization: &Authorization,
    ) -> (r: Result<u64, ForgeError>)
        requires
            valid_terms(total_amount, cliff, duration) ==> authorization.by == beneficiary,
        ensures
            r is Ok <==> valid_terms(total_amount, cliff, duration) && old(self)@.count < u64::MAX
                && now + cliff <= u64::MAX,
            r is Ok <==> total_amount > 0 && duration > 0 && cliff <= duration && old(self)@.count
                < u64::MAX && now + cliff <= u64::MAX,
            r matches Ok(id) ==> {
                &&& final(self)@.count == id
                &&& final(self)@.tranche_schedules == old(self)@.tranche_schedules
                &&& final(self)@.schedules == old(self)@.schedules.insert(
                    id,
                    VestingSchedule {
                        beneficiary,
                        token,
                        total_amount,
                        start: now,
                        cliff,
                        duration,
                        claimed: 0,
                        status: if cliff == 0 {
                            VestingStatus::Vesting
                        } else {
                            VestingStatus::Locked
                        },
                    },
                )
            },
            r matches Ok(id) ==> {
                &&& id == old(self)@.count + 1
                &&& final(self)@ == old(self)@.created(
                    Stored::Linear(
                        new_schedule(now, beneficiary, token, total_amount, cliff, duration),
                    ),
                )
            },
            r matches Err(e) ==> {
                &&& final(self)@ == old(self)@
                &&& e == if valid_terms(total_amount, cliff, duration) {
                    ForgeError::ArithmeticOverflow
                } else {
                    ForgeError::InvalidInput
                }
            },
            old(self)@.wf() ==> final(self)@.wf(),
    {
        if let Err(e) = Self::validate_schedule(total_amount, cliff, duration) {
            return Err(e);
        }
        let mut schedule = VestingSchedule {
            beneficiary,
            token,
            total_amount,
            start: now,
            cliff,
            duration,
            claimed: 0,
            status: VestingStatus::Locked,
        };
        schedule.status = match Self::current_status(&schedule, now) {
            Ok(status) => status,
            Err(e) => return Err(e),
        };
        let id: u64 = match self.next_id() {
            Ok(id) => id,
            Err(e) => return Err(e),
        };
        self.schedules.insert(id, schedule);
        Ok(id)
    }

    /// Create a tranche schedule at ledger time `now`, with the authorization
    /// of its `beneficiary`, and return its id.
    ///
    /// A first tranche at `unlock_at == 0` unlocks at the creation timestamp.
    pub fn create_tranche_schedule(
        &mut self,
        now: u64,
        beneficiary: Address,
        token: Address,
        tranches: Vec<Tranche>,
        authorization: &Authorization,
    ) -> (r: Result<u64, ForgeError>)
        requires
            valid_table(tranches@) ==> authorization.by == beneficiary,
        ensures
            r is Ok <==> valid_table(tranches@) && old(self)@.count < u64::MAX,
            r matches Ok(id) ==> {
                &&& final(self)@.count == id
                &&& final(self)@.schedules == old(self)@.schedules
                &&& final(self)@.tranche_schedules == old(self)@.tranche_schedules.insert(
                    id,
                    TrancheSchedule {
                        beneficiary,
                        token,
                        total_amount: sum(tranches@) as i128,
                        start: now,
                        tranches,
                        claimed: 0,
                        status: if tranches@[0].unlock_at == 0 {
                            VestingStatus::Vesting
                        } else {
                            VestingStatus::Locked
                        },
                    },
                )
            },
            r matches Ok(id) ==> {
                &&& id == old(self)@.count + 1
                &&& final(self)@ == old(self)@.created(
                    Stored::Tranche(new_tranche_schedule(now, beneficiary, token, tranches)),
                )
            },
            r matches Err(e) ==> {
                &&& final(self)@ == old(self)@
                &&& e == if valid_table(tranches@) || (length_accepted(tranches@) && overflows(
                    tranches@,
                )) {
                    ForgeError::ArithmeticOverflow
                } else {
                    ForgeError::InvalidInput
                }
            },
            old(self)@.wf() ==> final(self)@.wf(),
    {
        let total_amount: i128 = match Self::validate_tranches(&tranches) {
            Ok(total_amount) => total_amount,
            Err(e) => return Err(e),
        };
        let mut schedule = TrancheSchedule {
            beneficiary,
            token,
            total_amount,
            start: now,
            tranches,
            claimed: 0,
            status: VestingStatus::Locked,
        };
        proof {
            lemma_prefix_sums(tranches@, 0);
        }
        schedule.status = match Self::tranche_status(&schedule, now) {
            Ok(status) => status,
            Err(e) => return Err(e),
        };
        let id: u64 = match self.next_id() {
            Ok(id) => id,
            Err(e) => return Err(e),
        };
        self.tranche_schedules.insert(id, schedule);
        Ok(id)
    }

    /// The full tranche record under `schedule_id`, unlock table included.
    pub fn get_tranche_schedule(&self, schedule_id: u64) -> (r: Result<TrancheSchedule, ForgeError>)
        ensures
            r is Ok <==> self@.tranche_schedules.contains_key(schedule_id),
            r matches Ok(schedule) ==> schedule.same_as(self@.tranche_schedules[schedule_id]),
            r matches Ok(schedule) ==> {
                &&& schedule.beneficiary == self@.tranche_schedules[schedule_id].beneficiary
                &&& schedule.token == self@.tranche_schedules[schedule_id].token
                &&& schedule.total_amount == self@.tranche_schedules[schedule_id].total_amount
                &&& schedule.start == self@.tranche_schedules[schedule_id].start
                &&& schedule.tranches@ == self@.tranche_schedules[schedule_id].tranches@
                &&& schedule.claimed == self@.tranche_schedules[schedule_id].claimed
                &&& schedule.status == self@.tranche_schedules[schedule_id].status
            },
            r matches Ok(schedule) ==> self@.wf() ==> schedule.wf(),
            r matches Err(e) ==> e == ForgeError::NotFound,
    {
        match self.tranche_schedules.get(&schedule_id) {
            Some(schedule) => Ok(schedule.clone()),
            None => Err(ForgeError::NotFound),
        }
    }

    /// The amount claimable under `schedule_id` at ledger time `now`.
    pub fn claimable(&self, schedule_id: u64, now: u64) -> (r: Result<i128, ForgeError>)
        ensures
            match self@.stored(schedule_id) {
                Some(record) => if record.claimable_in_range(now) {
                    r matches Ok(amount) && amount == record.claimable_at(now)
                } else {
                    r matches Err(e) && e == ForgeError::ArithmeticOverflow
                },
                None => r matches Err(e) && e == ForgeError::NotFound,
            },
    {
        match self.load(schedule_id) {
            Ok(StoredRef::Linear(schedule)) => Self::claimable_amount(schedule, now),
            Ok(StoredRef::Tranche(schedule)) => Self::tranche_claimable(schedule, now),
            Err(e) => Err(e),
        }
    }

    /// The lifecycle status of `schedule_id` at ledger time `now`, derived
    /// from time and claimed amount rather than from the stored field.
    pub fn get_status(&self, schedule_id: u64, now: u64) -> (r: Result<VestingStatus, ForgeError>)
        ensures
            match self@.stored(schedule_id) {
                Some(record) => if record.status_in_range() {
                    r matches Ok(status) && status == record.status_at(now)
                } else {
                    r matches Err(e) && e == ForgeError::ArithmeticOverflow
                },
                None => r matches Err(e) && e == ForgeError::NotFound,
            },
    {
        match self.load(schedule_id) {
            Ok(StoredRef::Linear(schedule)) => Self::current_status(schedule, now),
            Ok(StoredRef::Tranche(schedule)) => Self::tranche_status(schedule, now),
            Err(e) => Err(e),
        }
    }

    /// Claim what has vested under `schedule_id` at ledger time `now`, with
    /// the authorization of the beneficiary, and pay it through `till` out of
    /// the balance of `contract`.
    ///
    /// The transfer runs before the record is written: a refused transfer
    /// leaves every entry as it was. Where nothing is owed no transfer is
    /// issued.
    ///
    /// All addresses, those of the records among them, have to belong to the
    /// environment of `till`.
    pub fn claim(
        &mut self,
        till: &mut Till,
        contract: &Address,
        schedule_id: u64,
        now: u64,
        authorization: &Authorization,
    ) -> (r: Result<i128, ForgeError>)
        requires
            old(self)@.may_claim(schedule_id, now, authorization.by),
        ensures
            old(self)@.claimed_through(
                *contract,
                schedule_id,
                now,
                old(till)@,
                r,
                final(self)@,
                final(till)@,
            ),
            old(self)@.wf() ==> final(self)@.wf(),
    {
        let receipt: Option<Receipt> = match self.payout(schedule_id, now) {
            Ok(payout) => Self::pay(till, contract, &payout, authorization),
            Err(e) => return Err(e),
        };
        self.settle(contract, schedule_id, now, receipt)
    }

    /// Load a schedule of either kind by id.
    pub fn load(&self, schedule_id: u64) -> (r: Result<StoredRef<'_>, ForgeError>)
        ensures
            match self@.stored(schedule_id) {
                Some(record) => r matches Ok(found) && found@ == record,
                None => r matches Err(e) && e == ForgeError::NotFound,
            },
            match r {
                Ok(StoredRef::Linear(schedule)) => self@.schedules.contains_key(schedule_id)
                    && *schedule == self@.schedules[schedule_id],
                Ok(StoredRef::Tranche(schedule)) => !self@.schedules.contains_key(schedule_id)
                    && self@.tranche_schedules.contains_key(schedule_id) && *schedule
                    == self@.tranche_schedules[schedule_id],
                Err(e) => e == ForgeError::NotFound && !self@.schedules.contains_key(schedule_id)
                    && !self@.tranche_schedules.contains_key(schedule_id),
            },
    {
        if let Some(schedule) = self.schedules.get(&schedule_id) {
            return Ok(StoredRef::Linear(schedule));
        }
        if let Some(schedule) = self.tranche_schedules.get(&schedule_id) {
            return Ok(StoredRef::Tranche(schedule));
        }
        Err(ForgeError::NotFound)
    }

    /// What a claim on `schedule_id` at ledger time `now` owes, and to whom.
    pub fn payout(&self, schedule_id: u64, now: u64) -> (r: Result<Payout<'_>, ForgeError>)
        ensures
            match self@.stored(schedule_id) {
                Some(record) => if record.claimable_in_range(now) {
                    r matches Ok(payout) && {
                        &&& *payout.beneficiary == record.beneficiary()
                        &&& *payout.token == record.token()
                        &&& payout.amount == record.claimable_at(now)
                    }
                } else {
                    r matches Err(e) && e == ForgeError::ArithmeticOverflow
                },
                None => r matches Err(e) && e == ForgeError::NotFound,
            },
    {
        match self.load(schedule_id) {
            Ok(StoredRef::Linear(schedule)) => match Self::claimable_amount(schedule, now) {
                Ok(amount) => Ok(
                    Payout { beneficiary: &schedule.beneficiary, token: &schedule.token, amount },
                ),
                Err(e) => Err(e),
            },
            Ok(StoredRef::Tranche(schedule)) => match Self::tranche_claimable(schedule, now) {
                Ok(amount) => Ok(
                    Payout { beneficiary: &schedule.beneficiary, token: &schedule.token, amount },
                ),
                Err(e) => Err(e),
            },
            Err(e) => Err(e),
        }
    }

    /// Settle a claim, given the receipt for the transfer of what
    /// [`Vesting::payout`] says is owed, or none where there was no transfer.
    pub fn settle(
        &mut self,
        contract: &Address,
        schedule_id: u64,
        now: u64,
        receipt: Option<Receipt>,
    ) -> (r: Result<i128, ForgeError>)
        requires
            receipt matches Some(receipt) ==> old(self)@.owes(
                schedule_id,
                now,
                *contract,
                receipt@,
            ),
        ensures
            old(self)@.claimed_to(schedule_id, now, receipt is Some, r, final(self)@),
            old(self)@.wf() ==> final(self)@.wf(),
    {
        proof {
            lemma_claim_wf(self@, schedule_id, now);
        }
        let ghost before = self@;
        if let Some(mut schedule) = self.schedules.remove(&schedule_id) {
            let ghost stored = schedule;
            let r = Self::settle_linear(&mut schedule, contract, now, receipt);
            let ghost written = schedule;
            self.schedules.insert(schedule_id, schedule);
            proof {
                assert(self@.schedules =~= before.schedules.insert(schedule_id, written));
                assert(before.schedules.insert(schedule_id, stored) =~= before.schedules);
            }
            return r;
        }
        assert(self@ =~= before);
        if let Some(mut schedule) = self.tranche_schedules.remove(&schedule_id) {
            let ghost stored = schedule;
            let r = Self::settle_tranche(&mut schedule, contract, now, receipt);
            let ghost written = schedule;
            self.tranche_schedules.insert(schedule_id, schedule);
            proof {
                assert(self@.tranche_schedules =~= before.tranche_schedules.insert(
                    schedule_id,
                    written,
                ));
                assert(before.tranche_schedules.insert(schedule_id, stored)
                    =~= before.tranche_schedules);
            }
            return r;
        }
        assert(self@ =~= before);
        Err(ForgeError::NotFound)
    }
}

} // verus!
