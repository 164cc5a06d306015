//! Linear schedules: an optional cliff, then a straight-line ramp.

use soroban_sdk::Address;
use vstd::prelude::*;

use crate::contract::Vesting;
use crate::error::ForgeError;
use crate::guarantees::{law_linear_vesting_follows_the_ramp, law_linear_vesting_overflow};
use crate::status::VestingStatus;
use crate::till::{Receipt, Transfer};

verus! {

/// A single token-vesting schedule.
#[derive(Debug)]
pub struct VestingSchedule {
    /// Recipient of the vested tokens.
    pub beneficiary: Address,
    /// Token contract whose balance is drawn down.
    pub token: Address,
    /// Total amount to vest linearly between `cliff` and `duration`.
    pub total_amount: i128,
    /// Ledger timestamp at which vesting begins (creation time).
    pub start: u64,
    /// Seconds after `start` at which claims become possible.
    pub cliff: u64,
    /// Seconds after `start` at which the schedule is fully vested.
    pub duration: u64,
    /// Amount already claimed by the beneficiary.
    pub claimed: i128,
    /// Lifecycle state as of the last write.
    pub status: VestingStatus,
}

impl Clone for VestingSchedule {
    fn clone(&self) -> (copy: Self)
        ensures
            copy == *self,
    {
        VestingSchedule {
            beneficiary: self.beneficiary.clone(),
            token: self.token.clone(),
            total_amount: self.total_amount,
            start: self.start,
            cliff: self.cliff,
            duration: self.duration,
            claimed: self.claimed,
            status: self.status,
        }
    }
}

/// Whether `x` can be held in an `i128`.
pub open spec fn fits_i128(x: int) -> bool {
    i128::MIN <= x <= i128::MAX
}

/// `n / d` rounded toward zero, for a positive `d`.
pub open spec fn quotient(n: int, d: int) -> int {
    if n >= 0 {
        n / d
    } else {
        -((-n) / d)
    }
}

impl VestingSchedule {
    /// What holds of every record that the contract writes.
    pub open spec fn wf(self) -> bool {
        &&& self.total_amount > 0
        &&& 0 < self.duration
        &&& self.cliff <= self.duration
        &&& self.cliff_time() <= u64::MAX
        &&& 0 <= self.claimed <= self.total_amount
        &&& self.status.agrees_with(self.claimed as int, self.total_amount as int)
    }

    /// First ledger time at which claims are possible.
    pub open spec fn cliff_time(self) -> int {
        self.start + self.cliff
    }

    /// First ledger time at which everything has vested.
    pub open spec fn end_time(self) -> int {
        self.start + self.duration
    }

    /// Amount vested at ledger time `now`.
    pub open spec fn vested_at(self, now: u64) -> int {
        if now < self.cliff_time() {
            0
        } else if now >= self.end_time() {
            self.total_amount as int
        } else {
            quotient(
                self.total_amount * (now - self.cliff_time()),
                self.end_time() - self.cliff_time(),
            )
        }
    }

    /// Whether the vested amount at `now` can be computed without leaving the
    /// machine's ranges: the boundaries that matter at `now` are ledger
    /// times, and on the ramp the product of total and elapsed time is an
    /// `i128`.
    pub open spec fn vested_in_range(self, now: u64) -> bool {
        &&& self.cliff_time() <= u64::MAX
        &&& now >= self.cliff_time() ==> self.end_time() <= u64::MAX
        &&& self.cliff_time() <= now < self.end_time() ==> fits_i128(
            self.total_amount * (now - self.cliff_time()),
        )
    }

    /// Amount claimable at ledger time `now`: vested minus claimed.
    pub open spec fn claimable_at(self, now: u64) -> int {
        self.vested_at(now) - self.claimed
    }

    /// Whether there is a claimable amount at `now`: it can be computed without
    /// leaving the machine's ranges, and no more was claimed than has vested.
    pub open spec fn claimable_in_range(self, now: u64) -> bool {
        &&& self.vested_in_range(now)
        &&& 0 <= self.claimable_at(now) <= i128::MAX
    }

    /// Whether `transfer` pays, out of the balance of `contract`, exactly what
    /// is claimable at `now`.
    pub open spec fn owes(self, now: u64, contract: Address, transfer: Transfer) -> bool {
        &&& self.claimable_in_range(now)
        &&& transfer == Transfer {
            token: self.token,
            from: contract,
            to: self.beneficiary,
            amount: self.claimable_at(now) as i128,
        }
    }

    /// Lifecycle state at ledger time `now`.
    pub open spec fn status_at(self, now: u64) -> VestingStatus {
        if self.claimed >= self.total_amount {
            VestingStatus::Completed
        } else if now < self.cliff_time() {
            VestingStatus::Locked
        } else {
            VestingStatus::Vesting
        }
    }

    /// Whether the lifecycle state can be derived: the cliff, where it
    /// matters, is a ledger time.
    pub open spec fn status_in_range(self) -> bool {
        self.claimed >= self.total_amount || self.cliff_time() <= u64::MAX
    }

    /// The record once the amount claimable at `now` has been paid out.
    pub open spec fn settled_at(self, now: u64) -> VestingSchedule {
        let paid = VestingSchedule { claimed: self.vested_at(now) as i128, ..self };
        VestingSchedule { status: paid.status_at(now), ..paid }
    }
}

/// The record of a schedule created at ledger time `now`.
pub open spec fn new_schedule(
    now: u64,
    beneficiary: Address,
    token: Address,
    total_amount: i128,
    cliff: u64,
    duration: u64,
) -> VestingSchedule {
    VestingSchedule {
        beneficiary,
        token,
        total_amount,
        start: now,
        cliff,
        duration,
        claimed: 0,
        status: if cliff == 0 {
            VestingStatus::Vesting
        } else {
            VestingStatus::Locked
        },
    }
}

/// The parameters a linear schedule may be created with.
pub open spec fn valid_terms(total_amount: i128, cliff: u64, duration: u64) -> bool {
    &&& total_amount > 0
    &&& duration > 0
    &&& cliff <= duration
}

/// What `quotient` gives is the share of `total` that `elapsed` is of `period`,
/// rounded toward zero.
pub proof fn lemma_quotient(total: int, elapsed: int, period: int)
    requires
        0 <= elapsed,
        0 < period,
    ensures
        total >= 0 ==> quotient(total * elapsed, period) * period <= total * elapsed < (quotient(
            total * elapsed,
            period,
        ) + 1) * period,
        total < 0 ==> (quotient(total * elapsed, period) - 1) * period < total * elapsed
            <= quotient(total * elapsed, period) * period,
{
    let part = total * elapsed;
    let q = quotient(part, period);
    assert(total >= 0 ==> part >= 0) by (nonlinear_arith)
        requires
            part == total * elapsed,
            0 <= elapsed,
    ;
    assert(total < 0 ==> part <= 0) by (nonlinear_arith)
        requires
            part == total * elapsed,
            0 <= elapsed,
    ;
    if part >= 0 {
        assert(q * period <= part < (q + 1) * period) by (nonlinear_arith)
            requires
                q == part / period,
                0 < period,
        ;
    } else {
        let up = (-part) / period;
        assert(up * period <= -part < (up + 1) * period) by (nonlinear_arith)
            requires
                up == (-part) / period,
                0 < period,
        ;
        assert((q - 1) * period < part <= q * period) by (nonlinear_arith)
            requires
                q == -up,
                up * period <= -part < (up + 1) * period,
        ;
    }
    if part == 0 {
        assert(q == 0) by (nonlinear_arith)
            requires
                q == part / period,
                part == 0,
                0 < period,
        ;
        assert((q - 1) * period < 0 <= q * period) by (nonlinear_arith)
            requires
                q == 0,
                0 < period,
        ;
    }
}

/// On the ramp a share of a positive total lies between zero and the total,
/// and grows with the elapsed time.
pub proof fn lemma_share(total: int, elapsed: int, period: int)
    requires
        total > 0,
        0 <= elapsed < period,
    ensures
        0 <= total * elapsed,
        0 <= quotient(total * elapsed, period) <= total,
        forall|later: int|
            elapsed <= later < period ==> quotient(total * elapsed, period) <= quotient(
                #[trigger] (total * later),
                period,
            ),
{
    assert(0 <= total * elapsed <= total * period) by (nonlinear_arith)
        requires
            total > 0,
            0 <= elapsed < period,
    ;
    vstd::arithmetic::div_mod::lemma_div_is_ordered(0, total * elapsed, period);
    vstd::arithmetic::div_mod::lemma_div_is_ordered(total * elapsed, total * period, period);
    vstd::arithmetic::div_mod::lemma_div_multiples_vanish(total, period);
    assert(period * total == total * period) by (nonlinear_arith);
    vstd::arithmetic::div_mod::lemma_div_basics(period);
    assert forall|later: int| elapsed <= later < period implies quotient(total * elapsed, period)
        <= quotient(#[trigger] (total * later), period) by {
        assert(total * elapsed <= total * later) by (nonlinear_arith)
            requires
                total > 0,
                elapsed <= later,
        ;
        vstd::arithmetic::div_mod::lemma_div_is_ordered(total * elapsed, total * later, period);
    }
}

/// What has vested of a well-formed schedule lies between zero and the total.
pub proof fn lemma_vested_bounds(schedule: VestingSchedule, now: u64)
    requires
        schedule.wf(),
    ensures
        0 <= schedule.vested_at(now) <= schedule.total_amount,
{
    if schedule.cliff_time() <= now < schedule.end_time() {
        lemma_share(
            schedule.total_amount as int,
            now - schedule.cliff_time(),
            schedule.end_time() - schedule.cliff_time(),
        );
    }
}

/// Settling a claim keeps a record well-formed.
pub proof fn lemma_settled_wf(schedule: VestingSchedule, now: u64)
    requires
        schedule.wf(),
    ensures
        schedule.settled_at(now).wf(),
{
    lemma_vested_bounds(schedule, now);
}

impl Vesting {
    /// Check the parameters of a linear schedule.
    pub fn validate_schedule(total_amount: i128, cliff: u64, duration: u64) -> (r: Result<
        (),
        ForgeError,
    >)
        ensures
            r is Ok <==> valid_terms(total_amount, cliff, duration),
            r is Ok <==> total_amount > 0 && duration > 0 && cliff <= duration,
            r matches Err(e) ==> e == ForgeError::InvalidInput,
    {
        if total_amount <= 0 {
            return Err(ForgeError::InvalidInput);
        }
        if duration == 0 {
            return Err(ForgeError::InvalidInput);
        }
        if cliff > duration {
            return Err(ForgeError::InvalidInput);
        }
        Ok(())
    }

    /// Vested amount at ledger time `now`, rounded down so claims never
    /// round up.
    pub fn vested_amount(schedule: &VestingSchedule, now: u64) -> (r: Result<i128, ForgeError>)
        ensures
            r is Ok <==> schedule.vested_in_range(now),
            r matches Ok(v) ==> v == schedule.vested_at(now),
            r matches Err(e) ==> e == ForgeError::ArithmeticOverflow,
            r is Err <==> {
                ||| schedule.start + schedule.cliff > u64::MAX
                ||| now >= schedule.start + schedule.cliff && schedule.start + schedule.duration
                    > u64::MAX
                ||| schedule.start + schedule.cliff <= now < schedule.start + schedule.duration
                    && !(i128::MIN <= schedule.total_amount * (now - schedule.start
                    - schedule.cliff) <= i128::MAX)
            },
            r matches Ok(v) ==> {
                &&& now < schedule.start + schedule.cliff ==> v == 0
                &&& schedule.start + schedule.cliff <= now && schedule.start + schedule.duration
                    <= now ==> v == schedule.total_amount
                &&& schedule.start + schedule.cliff <= now < schedule.start + schedule.duration
                    && schedule.total_amount >= 0 ==> v * (schedule.duration - schedule.cliff)
                    <= schedule.total_amount * (now - schedule.start - schedule.cliff) < (v + 1) * (
                schedule.duration - schedule.cliff)
                &&& schedule.start + schedule.cliff <= now < schedule.start + schedule.duration
                    && schedule.total_amount < 0 ==> (v - 1) * (schedule.duration - schedule.cliff)
                    < schedule.total_amount * (now - schedule.start - schedule.cliff) <= v * (
                schedule.duration - schedule.cliff)
            },
    {
        proof {
            law_linear_vesting_follows_the_ramp(*schedule, now);
            law_linear_vesting_overflow(*schedule, now);
        }
        let cliff_time: u64 = match schedule.start.checked_add(schedule.cliff) {
            Some(t) => t,
            None => return Err(ForgeError::ArithmeticOverflow),
        };
        if now < cliff_time {
            return Ok(0);
        }
        let end_time: u64 = match schedule.start.checked_add(schedule.duration) {
            Some(t) => t,
            None => return Err(ForgeError::ArithmeticOverflow),
        };
        if now >= end_time {
            return Ok(schedule.total_amount);
        }
        let period: u64 = end_time - cliff_time;
        let elapsed: u64 = now - cliff_time;
        match schedule.total_amount.checked_mul(elapsed as i128) {
            Some(product) => Ok(product / period as i128),
            None => Err(ForgeError::ArithmeticOverflow),
        }
    }

    /// Claimable amount at ledger time `now` (vested minus claimed). A record
    /// with more claimed than vested has none.
    pub fn claimable_amount(schedule: &VestingSchedule, now: u64) -> (r: Result<i128, ForgeError>)
        ensures
            r is Ok <==> schedule.claimable_in_range(now),
            r matches Ok(v) ==> v == schedule.claimable_at(now),
            r matches Ok(v) ==> v >= 0 && v + schedule.claimed == schedule.vested_at(now),
            r matches Err(e) ==> e == ForgeError::ArithmeticOverflow,
    {
        match Self::vested_amount(schedule, now) {
            Ok(vested) => match vested.checked_sub(schedule.claimed) {
                Some(amount) if amount >= 0 => Ok(amount),
                _ => Err(ForgeError::ArithmeticOverflow),
            },
            Err(e) => Err(e),
        }
    }

    /// Derive the lifecycle status from ledger time and claimed amount.
    pub fn current_status(schedule: &VestingSchedule, now: u64) -> (r: Result<
        VestingStatus,
        ForgeError,
    >)
        ensures
            r is Ok <==> schedule.status_in_range(),
            r matches Ok(status) ==> status == schedule.status_at(now),
            r matches Err(e) ==> e == ForgeError::ArithmeticOverflow,
            r is Err <==> schedule.claimed < schedule.total_amount && schedule.start
                + schedule.cliff > u64::MAX,
            r matches Ok(status) ==> status == if schedule.claimed >= schedule.total_amount {
                VestingStatus::Completed
            } else if now < schedule.start + schedule.cliff {
                VestingStatus::Locked
            } else {
                VestingStatus::Vesting
            },
    {
        if schedule.claimed >= schedule.total_amount {
            return Ok(VestingStatus::Completed);
        }
        match schedule.start.checked_add(schedule.cliff) {
            Some(cliff_time) => if now < cliff_time {
                Ok(VestingStatus::Locked)
            } else {
                Ok(VestingStatus::Vesting)
            },
            None => Err(ForgeError::ArithmeticOverflow),
        }
    }

    /// Settle a claim against a linear schedule at ledger time `now`, given
    /// the receipt for the transfer of the claimable amount out of the balance
    /// of `contract`, or none where there was no transfer.
    ///
    /// The record changes only after a successful transfer, and with nothing
    /// claimable there is no transfer to speak of.
    pub fn settle_linear(
        schedule: &mut VestingSchedule,
        contract: &Address,
        now: u64,
        receipt: Option<Receipt>,
    ) -> (r: Result<i128, ForgeError>)
        requires
            receipt matches Some(receipt) ==> old(schedule).owes(now, *contract, receipt@),
        ensures
            !old(schedule).claimable_in_range(now) ==> {
                &&& r == Err::<i128, ForgeError>(ForgeError::ArithmeticOverflow)
                &&& *final(schedule) == *old(schedule)
            },
            old(schedule).claimable_in_range(now) && old(schedule).claimable_at(now) == 0 ==> {
                &&& r == Ok::<i128, ForgeError>(0)
                &&& *final(schedule) == *old(schedule)
            },
            old(schedule).claimable_in_range(now) && old(schedule).claimable_at(now) != 0
                && receipt is None ==> {
                &&& r == Err::<i128, ForgeError>(ForgeError::TokenTransferFailed)
                &&& *final(schedule) == *old(schedule)
            },
            old(schedule).claimable_in_range(now) && old(schedule).claimable_at(now) != 0
                && receipt is Some ==> {
                &&& r == Ok::<i128, ForgeError>(old(schedule).claimable_at(now) as i128)
                &&& *final(schedule) == old(schedule).settled_at(now)
            },
    {
        let amount: i128 = match Self::claimable_amount(schedule, now) {
            Ok(amount) => amount,
            Err(e) => return Err(e),
        };
        if amount == 0 {
            return Ok(0);
        }
        if receipt.is_none() {
            return Err(ForgeError::TokenTransferFailed);
        }
        schedule.claimed = match schedule.claimed.checked_add(amount) {
            Some(claimed) => claimed,
            None => return Err(ForgeError::ArithmeticOverflow),
        };
        schedule.status = match Self::current_status(schedule, now) {
            Ok(status) => status,
            Err(e) => return Err(e),
        };
        Ok(amount)
    }
}

} // verus!
