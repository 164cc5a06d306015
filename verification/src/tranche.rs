//! Tranche schedules: an explicit, ordered table of discrete unlocks.

use soroban_sdk::Address;
use vstd::prelude::*;

use crate::contract::Vesting;
use crate::error::ForgeError;
use crate::guarantees::law_tranche_stops_at_the_first_locked;
use crate::linear::fits_i128;
use crate::status::VestingStatus;
use crate::till::{Receipt, Transfer};

verus! {

/// Maximum number of tranches a single schedule may carry.
///
/// Every claim scans the stored table, so the cap bounds the work of a claim.
/// A longer table is refused, never truncated.
pub const MAX_TRANCHES: u32 = 32;

/// One entry of an unlock table: an amount that becomes claimable at a fixed
/// offset from the schedule start.
#[derive(Clone, Copy, Debug, PartialEq, Eq, Structural)]
pub struct Tranche {
    /// Seconds after `start` at which this tranche unlocks.
    pub unlock_at: u64,
    /// Amount that unlocks at `unlock_at`; must be positive.
    pub amount: i128,
}

/// A vesting schedule whose unlock table is an explicit list of tranches.
#[derive(Debug)]
pub struct TrancheSchedule {
    /// Recipient of the unlocked tokens.
    pub beneficiary: Address,
    /// Token contract whose balance is drawn down.
    pub token: Address,
    /// Sum of every tranche amount; the amount unlocked at the last unlock.
    pub total_amount: i128,
    /// Ledger timestamp the tranche offsets are measured from (creation
    /// time).
    pub start: u64,
    /// The immutable unlock table, ordered by strictly increasing
    /// `unlock_at`. Non-empty and at most [`MAX_TRANCHES`] long.
    pub tranches: Vec<Tranche>,
    /// Amount already claimed by the beneficiary.
    pub claimed: i128,
    /// Lifecycle state as of the last write.
    pub status: VestingStatus,
}

impl Clone for TrancheSchedule {
    fn clone(&self) -> (copy: Self)
        ensures
            copy.same_as(*self),
            copy.beneficiary == self.beneficiary,
            copy.token == self.token,
            copy.total_amount == self.total_amount,
            copy.start == self.start,
            copy.tranches@ == self.tranches@,
            copy.claimed == self.claimed,
            copy.status == self.status,
    {
        let tranches = self.tranches.clone();
        assert(tranches@ =~= self.tranches@);
        TrancheSchedule {
            beneficiary: self.beneficiary.clone(),
            token: self.token.clone(),
            total_amount: self.total_amount,
            start: self.start,
            tranches,
            claimed: self.claimed,
            status: self.status,
        }
    }
}

/// Sum of the amounts of `table`.
pub open spec fn sum(table: Seq<Tranche>) -> int
    decreases table.len(),
{
    if table.len() == 0 {
        0
    } else {
        sum(table.drop_last()) + table.last().amount
    }
}

/// Positive amounts at strictly increasing offsets.
pub open spec fn well_ordered(table: Seq<Tranche>) -> bool {
    &&& forall|i: int| 0 <= i < table.len() ==> (#[trigger] table[i]).amount > 0
    &&& forall|i: int, j: int|
        0 <= i < j < table.len() ==> (#[trigger] table[i]).unlock_at < (
        #[trigger] table[j]).unlock_at
}

/// Between one entry and [`MAX_TRANCHES`] entries.
pub open spec fn length_accepted(table: Seq<Tranche>) -> bool {
    0 < table.len() <= MAX_TRANCHES
}

/// The tables a schedule may be created with.
pub open spec fn valid_table(table: Seq<Tranche>) -> bool {
    &&& length_accepted(table)
    &&& well_ordered(table)
    &&& sum(table) <= i128::MAX
}

/// Some well-ordered beginning of `table` already sums past `i128::MAX`.
pub open spec fn overflows(table: Seq<Tranche>) -> bool {
    exists|n: int|
        0 <= n <= table.len() && well_ordered(#[trigger] table.take(n)) && sum(table.take(n))
            > i128::MAX
}

/// Seconds from `start` to `now`, zero for a `now` before `start`.
pub open spec fn elapsed(start: u64, now: u64) -> u64 {
    if now >= start {
        (now - start) as u64
    } else {
        0
    }
}

/// Whether `tranche`, of a schedule started at `start`, has unlocked at ledger
/// time `now`: not before the start, and not before its offset has elapsed.
pub open spec fn unlocks_by(tranche: Tranche, start: u64, now: u64) -> bool {
    start <= now && tranche.unlock_at <= now - start
}

/// Number of leading entries that have unlocked at ledger time `now`.
pub open spec fn unlocked_len(table: Seq<Tranche>, start: u64, now: u64) -> int
    decreases table.len(),
{
    if table.len() == 0 || !unlocks_by(table[0], start, now) {
        0
    } else {
        1 + unlocked_len(table.drop_first(), start, now)
    }
}

/// The leading entries that have unlocked at ledger time `now`.
pub open spec fn unlocked(table: Seq<Tranche>, start: u64, now: u64) -> Seq<Tranche> {
    table.take(unlocked_len(table, start, now))
}

/// The number of leading unlocked entries is the `n` for which the first `n`
/// entries have unlocked and the next one, if any, has not.
pub proof fn lemma_unlocked_len(table: Seq<Tranche>, start: u64, now: u64, n: int)
    requires
        0 <= n <= table.len(),
        forall|i: int| 0 <= i < n ==> unlocks_by(#[trigger] table[i], start, now),
        n < table.len() ==> !unlocks_by(table[n], start, now),
    ensures
        unlocked_len(table, start, now) == n,
    decreases table.len(),
{
    if n > 0 {
        let rest = table.drop_first();
        assert(unlocks_by(table[0], start, now));
        assert forall|i: int| 0 <= i < n - 1 implies unlocks_by(#[trigger] rest[i], start, now) by {
            assert(rest[i] == table[i + 1]);
        }
        lemma_unlocked_len(rest, start, now, n - 1);
    }
}

/// Entries that have unlocked from the start of the table on are counted.
pub proof fn lemma_unlocked_len_at_least(table: Seq<Tranche>, start: u64, now: u64, n: int)
    requires
        0 <= n <= table.len(),
        forall|i: int| 0 <= i < n ==> unlocks_by(#[trigger] table[i], start, now),
    ensures
        n <= unlocked_len(table, start, now) <= table.len(),
    decreases table.len(),
{
    if table.len() > 0 && unlocks_by(table[0], start, now) {
        let rest = table.drop_first();
        let fewer = if n > 0 {
            n - 1
        } else {
            0
        };
        assert forall|i: int| 0 <= i < fewer implies unlocks_by(
            #[trigger] rest[i],
            start,
            now,
        ) by {
            assert(rest[i] == table[i + 1]);
        }
        lemma_unlocked_len_at_least(rest, start, now, fewer);
    }
    if n > 0 {
        assert(unlocks_by(table[0], start, now));
    }
}

/// Appending the next entry adds its amount.
pub proof fn lemma_sum_step(table: Seq<Tranche>, i: int)
    requires
        0 <= i < table.len(),
    ensures
        sum(table.take(i + 1)) == sum(table.take(i)) + table[i].amount,
{
    assert(table.take(i + 1).drop_last() =~= table.take(i));
}

/// With positive amounts a longer beginning of a table never sums to less.
pub proof fn lemma_sum_grows(table: Seq<Tranche>, m: int, n: int)
    requires
        0 <= m <= n <= table.len(),
        forall|i: int| m <= i < n ==> (#[trigger] table[i]).amount > 0,
    ensures
        sum(table.take(m)) <= sum(table.take(n)),
        m < n ==> sum(table.take(m)) < sum(table.take(n)),
    decreases n - m,
{
    if m < n {
        lemma_sum_grows(table, m, n - 1);
        lemma_sum_step(table, n - 1);
    }
}

impl TrancheSchedule {
    /// Equality of every field, the table compared entry by entry.
    pub open spec fn same_as(self, other: TrancheSchedule) -> bool {
        &&& self.beneficiary == other.beneficiary
        &&& self.token == other.token
        &&& self.total_amount == other.total_amount
        &&& self.start == other.start
        &&& self.tranches@ == other.tranches@
        &&& self.claimed == other.claimed
        &&& self.status == other.status
    }

    /// What holds of every record that the contract writes.
    pub open spec fn wf(self) -> bool {
        &&& valid_table(self.tranches@)
        &&& self.total_amount == sum(self.tranches@)
        &&& 0 <= self.claimed <= self.total_amount
        &&& self.status.agrees_with(self.claimed as int, self.total_amount as int)
    }

    /// Amount unlocked at ledger time `now`: the sum of the entries that have
    /// unlocked. Before the start nothing has.
    pub open spec fn vested_at(self, now: u64) -> int {
        sum(unlocked(self.tranches@, self.start, now))
    }

    /// Whether every running sum on the way to the unlocked amount is an
    /// `i128`.
    pub open spec fn vested_in_range(self, now: u64) -> bool {
        forall|n: int|
            0 <= n <= unlocked_len(self.tranches@, self.start, now)
                ==> fits_i128(sum(#[trigger] self.tranches@.take(n)))
    }

    /// Amount claimable at ledger time `now`: unlocked minus claimed.
    pub open spec fn claimable_at(self, now: u64) -> int {
        self.vested_at(now) - self.claimed
    }

    /// Whether there is a claimable amount at `now`: it can be computed without
    /// leaving the machine's ranges, and no more was claimed than has vested.
    pub open spec fn claimable_in_range(self, now: u64) -> bool {
        &&& self.vested_in_range(now)
        &&& 0 <= self.claimable_at(now) <= i128::MAX
    }

    /// Whether `transfer` pays, out of the balance of `contract`, exactly what
    /// is claimable at `now`.
    pub open spec fn owes(self, now: u64, contract: Address, transfer: Transfer) -> bool {
        &&& self.claimable_in_range(now)
        &&& transfer == Transfer {
            token: self.token,
            from: contract,
            to: self.beneficiary,
            amount: self.claimable_at(now) as i128,
        }
    }

    /// Lifecycle state at ledger time `now`.
    pub open spec fn status_at(self, now: u64) -> VestingStatus {
        if self.claimed >= self.total_amount {
            VestingStatus::Completed
        } else if self.tranches@.len() == 0 || !unlocks_by(self.tranches@[0], self.start, now) {
            VestingStatus::Locked
        } else {
            VestingStatus::Vesting
        }
    }

    /// The record once the amount claimable at `now` has been paid out.
    pub open spec fn settled_at(self, now: u64) -> TrancheSchedule {
        let paid = TrancheSchedule { claimed: self.vested_at(now) as i128, ..self };
        TrancheSchedule { status: paid.status_at(now), ..paid }
    }
}

/// The record of a schedule created at ledger time `now`.
pub open spec fn new_tranche_schedule(
    now: u64,
    beneficiary: Address,
    token: Address,
    tranches: Vec<Tranche>,
) -> TrancheSchedule {
    TrancheSchedule {
        beneficiary,
        token,
        total_amount: sum(tranches@) as i128,
        start: now,
        tranches,
        claimed: 0,
        status: if tranches@[0].unlock_at == 0 {
            VestingStatus::Vesting
        } else {
            VestingStatus::Locked
        },
    }
}

/// Every beginning of a valid table sums to something between zero and the
/// table's total.
pub proof fn lemma_prefix_sums(table: Seq<Tranche>, n: int)
    requires
        valid_table(table),
        0 <= n <= table.len(),
    ensures
        0 <= sum(table.take(n)) <= sum(table),
        n > 0 ==> 0 < sum(table.take(n)),
        n < table.len() ==> sum(table.take(n)) < sum(table),
{
    assert(table.take(table.len() as int) =~= table);
    lemma_sum_grows(table, 0, n);
    lemma_sum_grows(table, n, table.len() as int);
}

/// What has unlocked of a well-formed schedule lies between zero and the
/// total, and is zero before the first unlock.
pub proof fn lemma_unlocked_bounds(schedule: TrancheSchedule, now: u64)
    requires
        schedule.wf(),
    ensures
        0 <= schedule.vested_at(now) <= schedule.total_amount,
        !unlocks_by(schedule.tranches@[0], schedule.start, now) ==> schedule.vested_at(now) == 0,
{
    lemma_unlocked_len_at_least(schedule.tranches@, schedule.start, now, 0);
    lemma_prefix_sums(
        schedule.tranches@,
        unlocked_len(schedule.tranches@, schedule.start, now),
    );
}

/// Settling a claim keeps a record well-formed.
pub proof fn lemma_settled_tranche_wf(schedule: TrancheSchedule, now: u64)
    requires
        schedule.wf(),
    ensures
        schedule.settled_at(now).wf(),
{
    lemma_unlocked_bounds(schedule, now);
}

impl Vesting {
    /// Validate an unlock table and return the sum of its amounts.
    ///
    /// Entries are taken in order, and the first one at fault decides the
    /// error: a non-positive amount or an offset that does not strictly
    /// increase is invalid, an amount that takes the sum past `i128::MAX`
    /// overflows.
    pub fn validate_tranches(tranches: &Vec<Tranche>) -> (r: Result<i128, ForgeError>)
        ensures
            r is Ok <==> valid_table(tranches@),
            r is Ok <==> {
                &&& 1 <= tranches@.len() <= 32
                &&& forall|i: int| 0 <= i < tranches@.len() ==> (#[trigger] tranches@[i]).amount > 0
                &&& forall|i: int, j: int|
                    0 <= i < j < tranches@.len() ==> (#[trigger] tranches@[i]).unlock_at < (
                    #[trigger] tranches@[j]).unlock_at
                &&& sum(tranches@) <= i128::MAX
            },
            r matches Ok(total) ==> total == sum(tranches@),
            r == Err::<i128, ForgeError>(ForgeError::ArithmeticOverflow) <==> length_accepted(
                tranches@,
            ) && overflows(tranches@),
            r matches Err(e) ==> e == ForgeError::ArithmeticOverflow || e
                == ForgeError::InvalidInput,
    {
        if tranches.len() == 0 || tranches.len() > MAX_TRANCHES as usize {
            return Err(ForgeError::InvalidInput);
        }
        let ghost table = tranches@;
        let mut total: i128 = 0;
        let mut i: usize = 0;
        while i < tranches.len()
            invariant
                tranches@ == table,
                length_accepted(table),
                i <= table.len(),
                well_ordered(table.take(i as int)),
                total == sum(table.take(i as int)),
                forall|n: int|
                    0 <= n <= i ==> sum(#[trigger] table.take(n)) <= i128::MAX,
            decreases table.len() - i,
        {
            let tranche = tranches[i];
            proof {
                lemma_sum_step(table, i as int);
            }
            if tranche.amount <= 0 || (i > 0 && tranche.unlock_at <= tranches[i - 1].unlock_at) {
                proof {
                    assert forall|n: int| i < n <= table.len() implies !well_ordered(
                        #[trigger] table.take(n),
                    ) by {
                        assert(table.take(n)[i as int] == table[i as int]);
                        if i > 0 {
                            assert(table.take(n)[i - 1] == table[i - 1]);
                        }
                    }
                    assert(table.take(table.len() as int) =~= table);
                }
                return Err(ForgeError::InvalidInput);
            }
            proof {
                let longer = table.take(i + 1);
                assert forall|j: int| 0 <= j < i implies (#[trigger] longer[j]).unlock_at
                    < tranche.unlock_at by {
                    assert(table.take(i as int)[j] == table[j]);
                    assert(table.take(i as int)[i - 1] == table[i - 1]);
                }
                assert forall|j: int| 0 <= j < i implies #[trigger] longer[j] == table.take(
                    i as int,
                )[j] by {}
                assert(well_ordered(longer));
            }
            total = match total.checked_add(tranche.amount) {
                Some(larger) => larger,
                None => {
                    proof {
                        assert(table.take(table.len() as int) =~= table);
                        if well_ordered(table) {
                            lemma_sum_grows(table, i + 1, table.len() as int);
                        }
                    }
                    return Err(ForgeError::ArithmeticOverflow);
                },
            };
            i = i + 1;
        }
        assert(table.take(table.len() as int) =~= table);
        Ok(total)
    }

    /// Seconds elapsed since `start`, saturating at zero.
    ///
    /// Tranche progress is compared on this offset instead of on
    /// `start + unlock_at`, which keeps a `u64::MAX` offset from overflowing.
    pub fn elapsed_since(start: u64, now: u64) -> (seconds: u64)
        ensures
            seconds == elapsed(start, now),
            now >= start ==> seconds == now - start,
            now < start ==> seconds == 0,
    {
        now.saturating_sub(start)
    }

    /// Derive the lifecycle status of a tranche schedule from ledger time and
    /// claimed amount.
    pub fn tranche_status(schedule: &TrancheSchedule, now: u64) -> (r: Result<
        VestingStatus,
        ForgeError,
    >)
        ensures
            r == Ok::<VestingStatus, ForgeError>(schedule.status_at(now)),
            r matches Ok(status) && status == if schedule.claimed >= schedule.total_amount {
                VestingStatus::Completed
            } else if schedule.tranches@.len() > 0 && schedule.start <= now
                && schedule.tranches@[0].unlock_at <= now - schedule.start {
                VestingStatus::Vesting
            } else {
                VestingStatus::Locked
            },
    {
        if schedule.claimed >= schedule.total_amount {
            return Ok(VestingStatus::Completed);
        }
        if schedule.tranches.len() == 0 {
            return Ok(VestingStatus::Locked);
        }
        if now < schedule.start || Self::elapsed_since(schedule.start, now)
            < schedule.tranches[0].unlock_at {
            return Ok(VestingStatus::Locked);
        }
        Ok(VestingStatus::Vesting)
    }

    /// Unlocked amount of a tranche schedule at ledger time `now`.
    ///
    /// Nothing is unlocked before the start. From it on, the scan stops at the
    /// first tranche that has not unlocked yet. The running sum is checked, so
    /// a record that creation would not have accepted fails instead of
    /// wrapping.
    pub fn tranche_unlocked(schedule: &TrancheSchedule, now: u64) -> (r: Result<i128, ForgeError>)
        ensures
            r is Ok <==> schedule.vested_in_range(now),
            r matches Ok(v) ==> v == schedule.vested_at(now),
            now < schedule.start ==> r == Ok::<i128, ForgeError>(0),
            r matches Ok(v) ==> forall|n: int|
                0 <= n <= schedule.tranches@.len() && (n > 0 ==> schedule.start <= now) && (forall|
                    i: int,
                |
                    0 <= i < n ==> (#[trigger] schedule.tranches@[i]).unlock_at <= now
                        - schedule.start) && (n < schedule.tranches@.len() ==> now < schedule.start
                    || schedule.tranches@[n].unlock_at > now - schedule.start) ==> v == sum(
                    #[trigger] schedule.tranches@.take(n),
                ),
            r matches Err(e) ==> e == ForgeError::ArithmeticOverflow,
    {
        let ghost table = schedule.tranches@;
        proof {
            assert forall|n: int|
                0 <= n <= table.len() && (n > 0 ==> schedule.start <= now) && (forall|i: int|
                    0 <= i < n ==> (#[trigger] table[i]).unlock_at <= now - schedule.start) && (n
                    < table.len() ==> now < schedule.start
                    || table[n].unlock_at > now - schedule.start) implies schedule.vested_at(now)
                == sum(#[trigger] table.take(n)) by {
                law_tranche_stops_at_the_first_locked(*schedule, now, n);
            }
        }
        if now < schedule.start {
            proof {
                lemma_unlocked_len(table, schedule.start, now, 0);
            }
            return Ok(0);
        }
        let offset: u64 = Self::elapsed_since(schedule.start, now);
        let mut total: i128 = 0;
        let mut i: usize = 0;
        while i < schedule.tranches.len() && schedule.tranches[i].unlock_at <= offset
            invariant
                table == schedule.tranches@,
                schedule.start <= now,
                offset == now - schedule.start,
                i <= table.len(),
                total == sum(table.take(i as int)),
                forall|j: int| 0 <= j < i ==> unlocks_by(#[trigger] table[j], schedule.start, now),
                forall|n: int| 0 <= n <= i ==> fits_i128(sum(#[trigger] table.take(n))),
            decreases table.len() - i,
        {
            proof {
                lemma_sum_step(table, i as int);
            }
            total = match total.checked_add(schedule.tranches[i].amount) {
                Some(larger) => larger,
                None => {
                    proof {
                        lemma_unlocked_len_at_least(table, schedule.start, now, i + 1);
                        assert(!fits_i128(sum(table.take(i + 1))));
                    }
                    return Err(ForgeError::ArithmeticOverflow);
                },
            };
            i = i + 1;
        }
        proof {
            lemma_unlocked_len(table, schedule.start, now, i as int);
        }
        Ok(total)
    }

    /// Claimable amount of a tranche schedule at ledger time `now` (unlocked
    /// minus claimed). A record with more claimed than unlocked has none.
    pub fn tranche_claimable(schedule: &TrancheSchedule, now: u64) -> (r: Result<i128, ForgeError>)
        ensures
            r is Ok <==> schedule.claimable_in_range(now),
            r matches Ok(v) ==> v == schedule.claimable_at(now),
            r matches Ok(v) ==> v >= 0 && v + schedule.claimed == schedule.vested_at(now),
            r matches Err(e) ==> e == ForgeError::ArithmeticOverflow,
    {
        match Self::tranche_unlocked(schedule, now) {
            Ok(unlocked_amount) => match unlocked_amount.checked_sub(schedule.claimed) {
                Some(amount) if amount >= 0 => Ok(amount),
                _ => Err(ForgeError::ArithmeticOverflow),
            },
            Err(e) => Err(e),
        }
    }

    /// Settle a claim against a tranche schedule at ledger time `now`, given
    /// the receipt for the transfer of the claimable amount out of the balance
    /// of `contract`, or none where there was no transfer.
    ///
    /// The same discipline as [`Vesting::settle_linear`], over the unlock
    /// table's step function.
    pub fn settle_tranche(
        schedule: &mut TrancheSchedule,
        contract: &Address,
        now: u64,
        receipt: Option<Receipt>,
    ) -> (r: Result<i128, ForgeError>)
        requires
            receipt matches Some(receipt) ==> old(schedule).owes(now, *contract, receipt@),
        ensures
            !old(schedule).claimable_in_range(now) ==> {
                &&& r == Err::<i128, ForgeError>(ForgeError::ArithmeticOverflow)
                &&& *final(schedule) == *old(schedule)
            },
            old(schedule).claimable_in_range(now) && old(schedule).claimable_at(now) == 0 ==> {
                &&& r == Ok::<i128, ForgeError>(0)
                &&& *final(schedule) == *old(schedule)
            },
            old(schedule).claimable_in_range(now) && old(schedule).claimable_at(now) != 0
                && receipt is None ==> {
                &&& r == Err::<i128, ForgeError>(ForgeError::TokenTransferFailed)
                &&& *final(schedule) == *old(schedule)
            },
            old(schedule).claimable_in_range(now) && old(schedule).claimable_at(now) != 0
                && receipt is Some ==> {
                &&& r == Ok::<i128, ForgeError>(old(schedule).claimable_at(now) as i128)
                &&& *final(schedule) == old(schedule).settled_at(now)
            },
    {
        let amount: i128 = match Self::tranche_claimable(schedule, now) {
            Ok(amount) => amount,
            Err(e) => return Err(e),
        };
        if amount == 0 {
            return Ok(0);
        }
        if receipt.is_none() {
            return Err(ForgeError::TokenTransferFailed);
        }
        proof {
            lemma_unlocked_len_at_least(schedule.tranches@, schedule.start, now, 0);
            assert(fits_i128(schedule.vested_at(now)));
        }
        schedule.claimed = match schedule.claimed.checked_add(amount) {
            Some(claimed) => claimed,
            None => return Err(ForgeError::ArithmeticOverflow),
        };
        schedule.status = match Self::tranche_status(schedule, now) {
            Ok(status) => status,
            Err(e) => return Err(e),
        };
        Ok(amount)
    }
}

} // verus!
