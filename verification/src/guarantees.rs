//! What the operations guarantee, written with the fields of the records, the
//! arguments and the answers alone.
//!
//! The contracts of the operations speak of derived notions: the cliff time,
//! the vested amount, the valid tables, the entries after a claim. The laws
//! here say what each of those comes to, for records of any contents.

use soroban_sdk::Address;
use vstd::prelude::*;

use crate::entries::{Entries, Stored};
use crate::error::ForgeError;
use crate::laws::{lemma_unlocked_is_filter, lemma_unlocked_len_characterized};
use crate::linear::{lemma_quotient, new_schedule, valid_terms, VestingSchedule};
use crate::payment::Payout;
use crate::status::VestingStatus;
use crate::till::{Answer, Asked, Transfer};
use crate::tranche::{
    length_accepted, lemma_unlocked_len, new_tranche_schedule, overflows, sum, unlocked_len,
    unlocks_by, valid_table, well_ordered, Tranche, TrancheSchedule,
};

verus! {

// ---------------------------------------------------------------------------
// Linear schedules
// ---------------------------------------------------------------------------

/// Linear terms are accepted if and only if the total and the duration are
/// positive and the cliff does not come after the end.
pub proof fn law_linear_terms_accepted(total_amount: i128, cliff: u64, duration: u64)
    ensures
        valid_terms(total_amount, cliff, duration) <==> total_amount > 0 && duration > 0 && cliff
            <= duration,
{
}

/// A new linear record holds what it was created with, starts at its creation,
/// has nothing claimed, and is locked unless there is no cliff to wait for.
pub proof fn law_linear_creation_records_the_terms(
    now: u64,
    beneficiary: Address,
    token: Address,
    total_amount: i128,
    cliff: u64,
    duration: u64,
)
    ensures
        ({
            let record = new_schedule(now, beneficiary, token, total_amount, cliff, duration);
            &&& record.beneficiary == beneficiary
            &&& record.token == token
            &&& record.total_amount == total_amount
            &&& record.start == now
            &&& record.cliff == cliff
            &&& record.duration == duration
            &&& record.claimed == 0
            &&& cliff == 0 ==> record.status == VestingStatus::Vesting
            &&& cliff > 0 ==> record.status == VestingStatus::Locked
        }),
{
}

/// Nothing has vested before `start + cliff`, everything from
/// `start + duration` on, and in between the share of the total that the time
/// since the cliff is of the time from cliff to end, rounded toward zero.
pub proof fn law_linear_vesting_follows_the_ramp(schedule: VestingSchedule, now: u64)
    ensures
        schedule.cliff_time() == schedule.start + schedule.cliff,
        schedule.end_time() == schedule.start + schedule.duration,
        now < schedule.start + schedule.cliff ==> schedule.vested_at(now) == 0,
        schedule.start + schedule.cliff <= now && schedule.start + schedule.duration <= now
            ==> schedule.vested_at(now) == schedule.total_amount,
        schedule.start + schedule.cliff <= now < schedule.start + schedule.duration
            && schedule.total_amount >= 0 ==> {
            &&& schedule.vested_at(now) * (schedule.duration - schedule.cliff)
                <= schedule.total_amount * (now - schedule.start - schedule.cliff)
            &&& schedule.total_amount * (now - schedule.start - schedule.cliff) < (
            schedule.vested_at(now) + 1) * (schedule.duration - schedule.cliff)
        },
        schedule.start + schedule.cliff <= now < schedule.start + schedule.duration
            && schedule.total_amount < 0 ==> {
            &&& (schedule.vested_at(now) - 1) * (schedule.duration - schedule.cliff)
                < schedule.total_amount * (now - schedule.start - schedule.cliff)
            &&& schedule.total_amount * (now - schedule.start - schedule.cliff)
                <= schedule.vested_at(now) * (schedule.duration - schedule.cliff)
        },
{
    if schedule.start + schedule.cliff <= now < schedule.start + schedule.duration {
        lemma_quotient(
            schedule.total_amount as int,
            now - schedule.start - schedule.cliff,
            schedule.duration - schedule.cliff,
        );
        assert(now - schedule.cliff_time() == now - schedule.start - schedule.cliff);
        assert(schedule.end_time() - schedule.cliff_time() == schedule.duration - schedule.cliff);
    }
}

/// The vested amount can be computed unless a boundary that matters lies past
/// the last ledger time, or the product on the ramp is no `i128`.
pub proof fn law_linear_vesting_overflow(schedule: VestingSchedule, now: u64)
    ensures
        !schedule.vested_in_range(now) <==> {
            ||| schedule.start + schedule.cliff > u64::MAX
            ||| now >= schedule.start + schedule.cliff && schedule.start + schedule.duration
                > u64::MAX
            ||| schedule.start + schedule.cliff <= now < schedule.start + schedule.duration && !(
            i128::MIN <= schedule.total_amount * (now - schedule.start - schedule.cliff)
                <= i128::MAX)
        },
{
    assert(now - schedule.cliff_time() == now - schedule.start - schedule.cliff);
}

/// Where the vested amount of a linear record can be computed, it is an `i128`.
pub proof fn law_linear_vesting_fits(schedule: VestingSchedule, now: u64)
    requires
        schedule.vested_in_range(now),
    ensures
        i128::MIN <= schedule.vested_at(now) <= i128::MAX,
{
    if schedule.start + schedule.cliff <= now < schedule.start + schedule.duration {
        let part = schedule.total_amount * (now - schedule.cliff_time());
        let period = schedule.end_time() - schedule.cliff_time();
        assert(-part / period >= 0 && -part / period <= -part || part > 0) by (nonlinear_arith)
            requires
                period > 0,
        ;
        assert(part / period >= 0 && part / period <= part || part < 0) by (nonlinear_arith)
            requires
                period > 0,
        ;
    }
}

/// A linear schedule is completed exactly once all is claimed. Until then it is
/// locked exactly before `start + cliff`, while nothing has vested, and vesting
/// from there on. Only a cliff past the last ledger time leaves the state of an
/// unfinished schedule undecided.
pub proof fn law_linear_status_follows_the_cliff(schedule: VestingSchedule, now: u64)
    ensures
        schedule.status_at(now) == VestingStatus::Completed <==> schedule.claimed
            >= schedule.total_amount,
        schedule.claimed < schedule.total_amount ==> {
            &&& schedule.status_at(now) == VestingStatus::Locked <==> now < schedule.start
                + schedule.cliff
            &&& schedule.status_at(now) == VestingStatus::Vesting <==> now >= schedule.start
                + schedule.cliff
        },
        schedule.status_at(now) == VestingStatus::Locked ==> schedule.vested_at(now) == 0,
        !schedule.status_in_range() <==> schedule.claimed < schedule.total_amount && schedule.start
            + schedule.cliff > u64::MAX,
{
}

/// What is claimable of a linear schedule and what was claimed make up what has
/// vested. There is a claimable amount where the vested amount can be computed,
/// no more was claimed than has vested, and the difference is an `i128`.
pub proof fn law_linear_claimable_is_the_rest(schedule: VestingSchedule, now: u64)
    ensures
        schedule.claimable_at(now) + schedule.claimed == schedule.vested_at(now),
        schedule.claimable_in_range(now) <==> schedule.vested_in_range(now) && schedule.claimed
            <= schedule.vested_at(now) <= schedule.claimed + i128::MAX,
{
}

/// What a linear record owes is one transfer: of its token, from the contract
/// to its beneficiary, of what has vested less what was claimed.
pub proof fn law_linear_owes_the_rest(
    schedule: VestingSchedule,
    now: u64,
    contract: Address,
    transfer: Transfer,
)
    ensures
        schedule.owes(now, contract, transfer) <==> {
            &&& schedule.claimable_in_range(now)
            &&& transfer.token == schedule.token
            &&& transfer.from == contract
            &&& transfer.to == schedule.beneficiary
            &&& transfer.amount == schedule.vested_at(now) - schedule.claimed
        },
{
}

/// Settling a claim on a linear record raises the claimed amount to what has
/// vested, brings the status up to date, and leaves every other field alone.
pub proof fn law_linear_settlement(schedule: VestingSchedule, now: u64)
    requires
        i128::MIN <= schedule.vested_at(now) <= i128::MAX,
    ensures
        ({
            let after = schedule.settled_at(now);
            &&& after.beneficiary == schedule.beneficiary
            &&& after.token == schedule.token
            &&& after.total_amount == schedule.total_amount
            &&& after.start == schedule.start
            &&& after.cliff == schedule.cliff
            &&& after.duration == schedule.duration
            &&& after.claimed == schedule.vested_at(now)
            &&& after.status == if schedule.vested_at(now) >= schedule.total_amount {
                VestingStatus::Completed
            } else if now < schedule.start + schedule.cliff {
                VestingStatus::Locked
            } else {
                VestingStatus::Vesting
            }
        }),
{
}

/// What holds of every linear record that the contract writes: accepted terms,
/// a cliff within ledger time, no more claimed than the total, completed exactly
/// when all is claimed, locked only while nothing is, and never revoked.
pub proof fn law_linear_record_is_sound(schedule: VestingSchedule)
    ensures
        schedule.wf() <==> {
            &&& schedule.total_amount > 0
            &&& schedule.duration > 0
            &&& schedule.cliff <= schedule.duration
            &&& schedule.start + schedule.cliff <= u64::MAX
            &&& 0 <= schedule.claimed <= schedule.total_amount
            &&& schedule.status == VestingStatus::Completed <==> schedule.claimed
                == schedule.total_amount
            &&& schedule.status == VestingStatus::Locked ==> schedule.claimed == 0
            &&& schedule.status != VestingStatus::Revoked
        },
{
}

// ---------------------------------------------------------------------------
// Tranche schedules
// ---------------------------------------------------------------------------

/// The sum of a table is what adding up its amounts gives: nothing for the
/// empty table, and one amount more with every entry.
pub proof fn law_sum_adds_the_amounts(table: Seq<Tranche>, tranche: Tranche)
    ensures
        sum(Seq::empty()) == 0,
        sum(table.push(tranche)) == sum(table) + tranche.amount,
        sum(table) == table.fold_left(0int, |total: int, t: Tranche| total + t.amount),
    decreases table.len(),
{
    assert(table.push(tranche).drop_last() =~= table);
    if table.len() > 0 {
        law_sum_adds_the_amounts(table.drop_last(), tranche);
    }
}

/// A table is ordered if and only if every amount is positive and every offset
/// lies strictly past the one before it.
pub proof fn law_order_is_step_by_step(table: Seq<Tranche>)
    ensures
        well_ordered(table) <==> {
            &&& forall|i: int| 0 <= i < table.len() ==> (#[trigger] table[i]).amount > 0
            &&& forall|i: int, j: int|
                0 <= i && j == i + 1 && j < table.len() ==> (#[trigger] table[i]).unlock_at < (
                #[trigger] table[j]).unlock_at
        },
{
    if forall|i: int, j: int|
        0 <= i && j == i + 1 && j < table.len() ==> (#[trigger] table[i]).unlock_at < (
        #[trigger] table[j]).unlock_at {
        assert forall|i: int, j: int| 0 <= i < j < table.len() implies (
        #[trigger] table[i]).unlock_at < (#[trigger] table[j]).unlock_at by {
            lemma_offsets_increase(table, i, j);
        }
    }
}

/// Offsets that increase from entry to entry increase over any distance.
proof fn lemma_offsets_increase(table: Seq<Tranche>, i: int, j: int)
    requires
        0 <= i < j < table.len(),
        forall|k: int, l: int|
            0 <= k && l == k + 1 && l < table.len() ==> (#[trigger] table[k]).unlock_at < (
            #[trigger] table[l]).unlock_at,
    ensures
        table[i].unlock_at < table[j].unlock_at,
    decreases j - i,
{
    assert(table[j - 1].unlock_at < table[j].unlock_at);
    if i < j - 1 {
        lemma_offsets_increase(table, i, j - 1);
    }
}

/// A table is accepted if and only if it has between 1 and 32 entries, with
/// positive amounts at strictly increasing offsets, that sum to an `i128`.
pub proof fn law_tables_accepted(table: Seq<Tranche>)
    ensures
        length_accepted(table) <==> 1 <= table.len() <= 32,
        valid_table(table) <==> {
            &&& 1 <= table.len() <= 32
            &&& forall|i: int| 0 <= i < table.len() ==> (#[trigger] table[i]).amount > 0
            &&& forall|i: int, j: int|
                0 <= i && j == i + 1 && j < table.len() ==> (#[trigger] table[i]).unlock_at < (
                #[trigger] table[j]).unlock_at
            &&& table.fold_left(0int, |total: int, t: Tranche| total + t.amount) <= i128::MAX
        },
{
    law_order_is_step_by_step(table);
    law_sum_adds_the_amounts(table, Tranche { unlock_at: 0, amount: 0 });
}

/// A table overflows if and only if its amounts up to some entry sum past
/// `i128::MAX`, with no entry at fault up to there.
pub proof fn law_tables_overflow(table: Seq<Tranche>)
    ensures
        overflows(table) <==> exists|n: int|
            {
                &&& 0 <= n <= table.len()
                &&& sum(#[trigger] table.take(n)) > i128::MAX
                &&& forall|i: int| 0 <= i < n ==> (#[trigger] table[i]).amount > 0
                &&& forall|i: int, j: int|
                    0 <= i && j == i + 1 && j < n ==> (#[trigger] table[i]).unlock_at < (
                    #[trigger] table[j]).unlock_at
            },
{
    assert forall|n: int| 0 <= n <= table.len() implies (well_ordered(#[trigger] table.take(n))
        <==> {
        &&& forall|i: int| 0 <= i < n ==> (#[trigger] table[i]).amount > 0
        &&& forall|i: int, j: int|
            0 <= i && j == i + 1 && j < n ==> (#[trigger] table[i]).unlock_at < (
            #[trigger] table[j]).unlock_at
    }) by {
        let beginning = table.take(n);
        law_order_is_step_by_step(beginning);
        assert(forall|i: int| 0 <= i < n ==> (#[trigger] beginning[i]) == table[i]);
        assert(forall|i: int| 0 <= i < n ==> beginning[i] == (#[trigger] table[i]));
    }
}

/// A new tranche record holds what it was created with, totals its table,
/// starts at its creation, has nothing claimed, and is locked unless the first
/// tranche unlocks at once.
pub proof fn law_tranche_creation_records_the_terms(
    now: u64,
    beneficiary: Address,
    token: Address,
    tranches: Vec<Tranche>,
)
    requires
        i128::MIN <= sum(tranches@) <= i128::MAX,
    ensures
        ({
            let record = new_tranche_schedule(now, beneficiary, token, tranches);
            &&& record.beneficiary == beneficiary
            &&& record.token == token
            &&& record.total_amount == sum(tranches@)
            &&& record.start == now
            &&& record.tranches@ == tranches@
            &&& record.claimed == 0
            &&& tranches@[0].unlock_at == 0 ==> record.status == VestingStatus::Vesting
            &&& tranches@[0].unlock_at > 0 ==> record.status == VestingStatus::Locked
        }),
{
}

/// In an ordered table the unlocked amount is the sum of exactly those entries
/// whose offset has elapsed since the start; before the start there are none.
pub proof fn law_tranche_sums_the_elapsed(schedule: TrancheSchedule, now: u64)
    requires
        forall|i: int, j: int|
            0 <= i && j == i + 1 && j < schedule.tranches@.len() ==> (
            #[trigger] schedule.tranches@[i]).unlock_at < (
            #[trigger] schedule.tranches@[j]).unlock_at,
        forall|i: int|
            0 <= i < schedule.tranches@.len() ==> (#[trigger] schedule.tranches@[i]).amount > 0,
    ensures
        schedule.vested_at(now) == sum(
            schedule.tranches@.filter(
                |t: Tranche| schedule.start <= now && t.unlock_at <= now - schedule.start,
            ),
        ),
{
    law_order_is_step_by_step(schedule.tranches@);
    lemma_unlocked_is_filter(schedule.tranches@, schedule.start, now);
    assert((|t: Tranche| unlocks_by(t, schedule.start, now)) =~= (|t: Tranche|
        schedule.start <= now && t.unlock_at <= now - schedule.start));
}

/// In a table of any order the unlocked entries are those before the first one
/// whose offset has not elapsed: with `n` of them, the unlocked amount is the
/// sum of the first `n`, and can be computed where no sum on the way leaves the
/// range of `i128`.
pub proof fn law_tranche_stops_at_the_first_locked(schedule: TrancheSchedule, now: u64, n: int)
    requires
        0 <= n <= schedule.tranches@.len(),
        n > 0 ==> schedule.start <= now,
        forall|i: int|
            0 <= i < n ==> (#[trigger] schedule.tranches@[i]).unlock_at <= now - schedule.start,
        n < schedule.tranches@.len() ==> now < schedule.start || schedule.tranches@[n].unlock_at
            > now - schedule.start,
    ensures
        schedule.vested_at(now) == sum(schedule.tranches@.take(n)),
        schedule.vested_in_range(now) <==> forall|m: int|
            0 <= m <= n ==> i128::MIN <= sum(#[trigger] schedule.tranches@.take(m)) <= i128::MAX,
{
    lemma_unlocked_len(schedule.tranches@, schedule.start, now, n);
}

/// A tranche schedule is completed exactly once all is claimed. Until then it
/// is locked exactly before its first unlock, the start at the earliest, and
/// vesting from there on.
pub proof fn law_tranche_status_follows_the_first_unlock(schedule: TrancheSchedule, now: u64)
    ensures
        schedule.status_at(now) == VestingStatus::Completed <==> schedule.claimed
            >= schedule.total_amount,
        schedule.claimed < schedule.total_amount ==> {
            &&& schedule.status_at(now) == VestingStatus::Vesting <==> schedule.tranches@.len() > 0
                && schedule.start <= now && schedule.tranches@[0].unlock_at <= now - schedule.start
            &&& schedule.status_at(now) == VestingStatus::Locked <==> !(schedule.tranches@.len() > 0
                && schedule.start <= now && schedule.tranches@[0].unlock_at <= now
                - schedule.start)
        },
        schedule.status_at(now) == VestingStatus::Locked ==> schedule.vested_at(now) == 0,
{
    lemma_unlocked_len_characterized(schedule.tranches@, schedule.start, now);
    if schedule.status_at(now) == VestingStatus::Locked {
        assert(unlocked_len(schedule.tranches@, schedule.start, now) == 0);
    }
}

/// What is claimable of a tranche schedule and what was claimed make up what
/// has unlocked. There is a claimable amount where the unlocked amount can be
/// computed, no more was claimed than has unlocked, and the difference is an
/// `i128`.
pub proof fn law_tranche_claimable_is_the_rest(schedule: TrancheSchedule, now: u64)
    ensures
        schedule.claimable_at(now) + schedule.claimed == schedule.vested_at(now),
        schedule.claimable_in_range(now) <==> schedule.vested_in_range(now) && schedule.claimed
            <= schedule.vested_at(now) <= schedule.claimed + i128::MAX,
{
}

/// What a tranche record owes is one transfer: of its token, from the contract
/// to its beneficiary, of what has unlocked less what was claimed.
pub proof fn law_tranche_owes_the_rest(
    schedule: TrancheSchedule,
    now: u64,
    contract: Address,
    transfer: Transfer,
)
    ensures
        schedule.owes(now, contract, transfer) <==> {
            &&& schedule.claimable_in_range(now)
            &&& transfer.token == schedule.token
            &&& transfer.from == contract
            &&& transfer.to == schedule.beneficiary
            &&& transfer.amount == schedule.vested_at(now) - schedule.claimed
        },
{
}

/// Settling a claim on a tranche record raises the claimed amount to what has
/// unlocked, brings the status up to date, and leaves every other field alone.
pub proof fn law_tranche_settlement(schedule: TrancheSchedule, now: u64)
    requires
        i128::MIN <= schedule.vested_at(now) <= i128::MAX,
    ensures
        ({
            let after = schedule.settled_at(now);
            &&& after.beneficiary == schedule.beneficiary
            &&& after.token == schedule.token
            &&& after.total_amount == schedule.total_amount
            &&& after.start == schedule.start
            &&& after.tranches@ == schedule.tranches@
            &&& after.claimed == schedule.vested_at(now)
            &&& after.status == if schedule.vested_at(now) >= schedule.total_amount {
                VestingStatus::Completed
            } else if schedule.tranches@.len() > 0 && schedule.start <= now
                && schedule.tranches@[0].unlock_at <= now - schedule.start {
                VestingStatus::Vesting
            } else {
                VestingStatus::Locked
            }
        }),
{
}

/// A copy of a tranche record agrees with it in every field, so that it is
/// sound where the record is, and totals its own table.
pub proof fn law_tranche_copies_agree(copy: TrancheSchedule, record: TrancheSchedule)
    ensures
        copy.same_as(record) <==> {
            &&& copy.beneficiary == record.beneficiary
            &&& copy.token == record.token
            &&& copy.total_amount == record.total_amount
            &&& copy.start == record.start
            &&& copy.tranches@ == record.tranches@
            &&& copy.claimed == record.claimed
            &&& copy.status == record.status
        },
        copy.same_as(record) && record.wf() ==> copy.wf() && copy.total_amount == sum(
            copy.tranches@,
        ),
{
}

/// What holds of every tranche record that the contract writes: an accepted
/// table that the total sums, no more claimed than the total, completed exactly
/// when all is claimed, locked only while nothing is, and never revoked.
pub proof fn law_tranche_record_is_sound(schedule: TrancheSchedule)
    ensures
        schedule.wf() <==> {
            &&& 1 <= schedule.tranches@.len() <= 32
            &&& forall|i: int|
                0 <= i < schedule.tranches@.len() ==> (#[trigger] schedule.tranches@[i]).amount > 0
            &&& forall|i: int, j: int|
                0 <= i && j == i + 1 && j < schedule.tranches@.len() ==> (
                #[trigger] schedule.tranches@[i]).unlock_at < (
                #[trigger] schedule.tranches@[j]).unlock_at
            &&& schedule.total_amount == sum(schedule.tranches@)
            &&& 0 <= schedule.claimed <= schedule.total_amount
            &&& schedule.status == VestingStatus::Completed <==> schedule.claimed
                == schedule.total_amount
            &&& schedule.status == VestingStatus::Locked ==> schedule.claimed == 0
            &&& schedule.status != VestingStatus::Revoked
        },
{
    law_order_is_step_by_step(schedule.tranches@);
}

// ---------------------------------------------------------------------------
// Entries
// ---------------------------------------------------------------------------

/// Read as a stored record, a linear schedule is what it is.
pub proof fn law_stored_linear_reads_through(
    schedule: VestingSchedule,
    now: u64,
    contract: Address,
    transfer: Transfer,
)
    ensures
        ({
            let record = Stored::Linear(schedule);
            &&& record.beneficiary() == schedule.beneficiary
            &&& record.token() == schedule.token
            &&& record.total_amount() == schedule.total_amount
            &&& record.claimed() == schedule.claimed
            &&& record.status() == schedule.status
            &&& record.wf() == schedule.wf()
            &&& record.vested_at(now) == schedule.vested_at(now)
            &&& record.claimable_at(now) == schedule.vested_at(now) - schedule.claimed
            &&& record.claimable_in_range(now) == schedule.claimable_in_range(now)
            &&& record.owes(now, contract, transfer) == schedule.owes(now, contract, transfer)
            &&& record.status_at(now) == schedule.status_at(now)
            &&& record.status_in_range() == schedule.status_in_range()
            &&& record.settled_at(now) == Stored::Linear(schedule.settled_at(now))
        }),
{
}

/// Read as a stored record, a tranche schedule is what it is, and its status
/// can always be derived.
pub proof fn law_stored_tranche_reads_through(
    schedule: TrancheSchedule,
    now: u64,
    contract: Address,
    transfer: Transfer,
)
    ensures
        ({
            let record = Stored::Tranche(schedule);
            &&& record.beneficiary() == schedule.beneficiary
            &&& record.token() == schedule.token
            &&& record.total_amount() == schedule.total_amount
            &&& record.claimed() == schedule.claimed
            &&& record.status() == schedule.status
            &&& record.wf() == schedule.wf()
            &&& record.vested_at(now) == schedule.vested_at(now)
            &&& record.claimable_at(now) == schedule.vested_at(now) - schedule.claimed
            &&& record.claimable_in_range(now) == schedule.claimable_in_range(now)
            &&& record.owes(now, contract, transfer) == schedule.owes(now, contract, transfer)
            &&& record.status_at(now) == schedule.status_at(now)
            &&& record.status_in_range()
            &&& record.settled_at(now) == Stored::Tranche(schedule.settled_at(now))
        }),
{
}

/// An id addresses its linear record if there is one, else its tranche record,
/// else nothing.
pub proof fn law_ids_address_records(entries: Entries, id: u64)
    ensures
        entries.schedules.contains_key(id) ==> entries.stored(id) == Some(
            Stored::Linear(entries.schedules[id]),
        ),
        !entries.schedules.contains_key(id) && entries.tranche_schedules.contains_key(id)
            ==> entries.stored(id) == Some(Stored::Tranche(entries.tranche_schedules[id])),
        !entries.schedules.contains_key(id) && !entries.tranche_schedules.contains_key(id)
            ==> entries.stored(id) is None,
{
}

/// Writing a record puts it under its id among the records of its kind, and
/// changes nothing else. Creation does so under the id after the last, which
/// becomes the last.
pub proof fn law_writes_touch_one_entry(
    entries: Entries,
    id: u64,
    linear: VestingSchedule,
    tranche: TrancheSchedule,
)
    ensures
        entries.with(id, Stored::Linear(linear)) == (Entries {
            count: entries.count,
            schedules: entries.schedules.insert(id, linear),
            tranche_schedules: entries.tranche_schedules,
        }),
        entries.with(id, Stored::Tranche(tranche)) == (Entries {
            count: entries.count,
            schedules: entries.schedules,
            tranche_schedules: entries.tranche_schedules.insert(id, tranche),
        }),
        entries.count < u64::MAX && id == entries.count + 1 ==> {
            &&& entries.created(Stored::Linear(linear)) == (Entries {
                count: id,
                schedules: entries.schedules.insert(id, linear),
                tranche_schedules: entries.tranche_schedules,
            })
            &&& entries.created(Stored::Tranche(tranche)) == (Entries {
                count: id,
                schedules: entries.schedules,
                tranche_schedules: entries.tranche_schedules.insert(id, tranche),
            })
        },
{
}

/// The beneficiary of the record under an id may always claim on it, and anyone
/// may try an id that holds none, or a record with no claimable amount. Nobody
/// else may claim.
pub proof fn law_beneficiaries_may_claim(entries: Entries, id: u64, now: u64, caller: Address)
    ensures
        entries.schedules.contains_key(id) ==> (entries.may_claim(id, now, caller) <==> (caller
            == entries.schedules[id].beneficiary || !entries.schedules[id].claimable_in_range(
            now,
        ))),
        !entries.schedules.contains_key(id) && entries.tranche_schedules.contains_key(id) ==> (
        entries.may_claim(id, now, caller) <==> (caller
            == entries.tranche_schedules[id].beneficiary
            || !entries.tranche_schedules[id].claimable_in_range(now))),
        !entries.schedules.contains_key(id) && !entries.tranche_schedules.contains_key(id)
            ==> entries.may_claim(id, now, caller),
{
}

/// What a claim owes is what the record under its id owes.
pub proof fn law_claims_owe_what_the_record_owes(
    entries: Entries,
    id: u64,
    now: u64,
    contract: Address,
    transfer: Transfer,
)
    ensures
        entries.schedules.contains_key(id) ==> entries.owes(id, now, contract, transfer)
            == entries.schedules[id].owes(now, contract, transfer),
        !entries.schedules.contains_key(id) && entries.tranche_schedules.contains_key(id)
            ==> entries.owes(id, now, contract, transfer) == entries.tranche_schedules[id].owes(
            now,
            contract,
            transfer,
        ),
        !entries.schedules.contains_key(id) && !entries.tranche_schedules.contains_key(id)
            ==> !entries.owes(id, now, contract, transfer),
{
}

/// Entries are sound if and only if every record is, under an id from one to
/// the counter that no record of the other kind has.
pub proof fn law_entries_are_sound(entries: Entries)
    ensures
        entries.wf() <==> {
            &&& forall|id: u64| #[trigger]
                entries.schedules.contains_key(id) ==> 1 <= id <= entries.count
                    && entries.schedules[id].wf()
            &&& forall|id: u64| #[trigger]
                entries.tranche_schedules.contains_key(id) ==> 1 <= id <= entries.count
                    && entries.tranche_schedules[id].wf()
            &&& forall|id: u64|
                !(#[trigger] entries.schedules.contains_key(id)
                    && #[trigger] entries.tranche_schedules.contains_key(id))
        },
{
    if entries.wf() {
        assert forall|id: u64|
            !(#[trigger] entries.schedules.contains_key(id)
                && #[trigger] entries.tranche_schedules.contains_key(id)) by {}
    }
}

/// A claim on an id that holds no record is answered with `NotFound`, asks for
/// no transfer and writes nothing.
pub proof fn law_claim_on_an_unknown_id(
    contract: Address,
    id: u64,
    now: u64,
    before: Entries,
    log: Seq<Asked>,
    r: Result<i128, ForgeError>,
    after: Entries,
    log_after: Seq<Asked>,
)
    requires
        before.claimed_through(contract, id, now, log, r, after, log_after),
        !before.schedules.contains_key(id),
        !before.tranche_schedules.contains_key(id),
    ensures
        r == Err::<i128, ForgeError>(ForgeError::NotFound),
        after == before,
        log_after == log,
{
}

/// A claim on a linear record asks for one transfer of what has vested less
/// what was claimed, to the beneficiary. If it is carried out the claim answers
/// with that amount and writes the claimed amount and the status; if not it
/// answers with `TokenTransferFailed` and writes nothing. With nothing to pay
/// it answers zero, and with no claimable amount `ArithmeticOverflow`, without
/// a transfer or a write.
pub proof fn law_claim_on_a_linear_record(
    contract: Address,
    id: u64,
    now: u64,
    before: Entries,
    log: Seq<Asked>,
    r: Result<i128, ForgeError>,
    after: Entries,
    log_after: Seq<Asked>,
)
    requires
        before.claimed_through(contract, id, now, log, r, after, log_after),
        before.schedules.contains_key(id),
    ensures
        ({
            let record = before.schedules[id];
            let due = record.vested_at(now) - record.claimed;
            let range = record.vested_in_range(now) && 0 <= due <= i128::MAX;
            &&& !range ==> {
                &&& r == Err::<i128, ForgeError>(ForgeError::ArithmeticOverflow)
                &&& after == before
                &&& log_after == log
            }
            &&& range && due == 0 ==> {
                &&& r == Ok::<i128, ForgeError>(0)
                &&& after == before
                &&& log_after == log
            }
            &&& range && due != 0 ==> {
                &&& log_after.len() == log.len() + 1
                &&& log_after.drop_last() == log
                &&& log_after.last().transfer.token == record.token
                &&& log_after.last().transfer.from == contract
                &&& log_after.last().transfer.to == record.beneficiary
                &&& log_after.last().transfer.amount == due
                &&& log_after.last().answer != Answer::Done ==> {
                    &&& r == Err::<i128, ForgeError>(ForgeError::TokenTransferFailed)
                    &&& after == before
                }
                &&& log_after.last().answer == Answer::Done ==> {
                    &&& r matches Ok(amount) && amount == due
                    &&& after.count == before.count
                    &&& after.tranche_schedules == before.tranche_schedules
                    &&& after.schedules == before.schedules.insert(
                        id,
                        VestingSchedule {
                            claimed: record.vested_at(now) as i128,
                            status: if record.vested_at(now) >= record.total_amount {
                                VestingStatus::Completed
                            } else if now < record.start + record.cliff {
                                VestingStatus::Locked
                            } else {
                                VestingStatus::Vesting
                            },
                            ..record
                        },
                    )
                    &&& after.schedules[id].claimed == record.claimed + due
                }
            }
        }),
{
    let record = before.schedules[id];
    law_linear_claimable_is_the_rest(record, now);
    if record.vested_in_range(now) {
        law_linear_vesting_fits(record, now);
    }
    if log_after != log {
        assert(log_after.drop_last() =~= log);
    }
}

/// A claim on the ramp of a linear record pays the beneficiary the share of the
/// total that has accrued since the cliff, rounded down, less what was claimed
/// before, and records that share as claimed.
pub proof fn law_claim_on_the_ramp_pays_the_share(
    contract: Address,
    id: u64,
    now: u64,
    before: Entries,
    log: Seq<Asked>,
    r: Result<i128, ForgeError>,
    after: Entries,
    log_after: Seq<Asked>,
    share: int,
)
    requires
        before.claimed_through(contract, id, now, log, r, after, log_after),
        before.schedules.contains_key(id),
        before.schedules[id].total_amount > 0,
        before.schedules[id].start + before.schedules[id].cliff <= now < before.schedules[id].start
            + before.schedules[id].duration <= u64::MAX,
        before.schedules[id].total_amount * (now - before.schedules[id].start
            - before.schedules[id].cliff) <= i128::MAX,
        share * (before.schedules[id].duration - before.schedules[id].cliff)
            <= before.schedules[id].total_amount * (now - before.schedules[id].start
            - before.schedules[id].cliff) < (share + 1) * (before.schedules[id].duration
            - before.schedules[id].cliff),
        0 <= before.schedules[id].claimed <= share,
    ensures
        r is Err ==> r == Err::<i128, ForgeError>(ForgeError::TokenTransferFailed) && after
            == before,
        r matches Ok(amount) ==> {
            &&& amount == share - before.schedules[id].claimed
            &&& after.schedules.contains_key(id)
            &&& after.schedules[id].claimed == share
        },
        log_after != log ==> log_after.last().transfer == (Transfer {
            token: before.schedules[id].token,
            from: contract,
            to: before.schedules[id].beneficiary,
            amount: (share - before.schedules[id].claimed) as i128,
        }),
{
    let record = before.schedules[id];
    let vested = record.vested_at(now);
    let period = record.duration - record.cliff;
    let part = record.total_amount * (now - record.start - record.cliff);
    law_linear_vesting_follows_the_ramp(record, now);
    law_linear_vesting_overflow(record, now);
    assert(0 <= part) by (nonlinear_arith)
        requires
            part == record.total_amount * (now - record.start - record.cliff),
            record.total_amount > 0,
            now - record.start - record.cliff >= 0,
    ;
    assert(vested == share) by (nonlinear_arith)
        requires
            period > 0,
            vested * period <= part < (vested + 1) * period,
            share * period <= part < (share + 1) * period,
    ;
    law_linear_vesting_fits(record, now);
    law_claim_on_a_linear_record(contract, id, now, before, log, r, after, log_after);
    if log_after != log {
        assert(log_after.drop_last() =~= log);
    }
}

/// A claim on a tranche record asks for one transfer of what has unlocked less
/// what was claimed, to the beneficiary. If it is carried out the claim answers
/// with that amount and writes the claimed amount and the status; if not it
/// answers with `TokenTransferFailed` and writes nothing. With nothing to pay
/// it answers zero, and with no claimable amount `ArithmeticOverflow`, without
/// a transfer or a write.
pub proof fn law_claim_on_a_tranche_record(
    contract: Address,
    id: u64,
    now: u64,
    before: Entries,
    log: Seq<Asked>,
    r: Result<i128, ForgeError>,
    after: Entries,
    log_after: Seq<Asked>,
)
    requires
        before.claimed_through(contract, id, now, log, r, after, log_after),
        !before.schedules.contains_key(id),
        before.tranche_schedules.contains_key(id),
    ensures
        ({
            let record = before.tranche_schedules[id];
            let due = record.vested_at(now) - record.claimed;
            let range = record.vested_in_range(now) && 0 <= due <= i128::MAX;
            &&& !range ==> {
                &&& r == Err::<i128, ForgeError>(ForgeError::ArithmeticOverflow)
                &&& after == before
                &&& log_after == log
            }
            &&& range && due == 0 ==> {
                &&& r == Ok::<i128, ForgeError>(0)
                &&& after == before
                &&& log_after == log
            }
            &&& range && due != 0 ==> {
                &&& log_after.len() == log.len() + 1
                &&& log_after.drop_last() == log
                &&& log_after.last().transfer.token == record.token
                &&& log_after.last().transfer.from == contract
                &&& log_after.last().transfer.to == record.beneficiary
                &&& log_after.last().transfer.amount == due
                &&& log_after.last().answer != Answer::Done ==> {
                    &&& r == Err::<i128, ForgeError>(ForgeError::TokenTransferFailed)
                    &&& after == before
                }
                &&& log_after.last().answer == Answer::Done ==> {
                    &&& r matches Ok(amount) && amount == due
                    &&& after.count == before.count
                    &&& after.schedules == before.schedules
                    &&& after.tranche_schedules == before.tranche_schedules.insert(
                        id,
                        TrancheSchedule {
                            claimed: record.vested_at(now) as i128,
                            status: if record.vested_at(now) >= record.total_amount {
                                VestingStatus::Completed
                            } else if record.tranches@.len() > 0 && record.start <= now
                                && record.tranches@[0].unlock_at <= now - record.start {
                                VestingStatus::Vesting
                            } else {
                                VestingStatus::Locked
                            },
                            ..record
                        },
                    )
                    &&& after.tranche_schedules[id].claimed == record.claimed + due
                }
            }
        }),
{
    let record = before.tranche_schedules[id];
    law_tranche_claimable_is_the_rest(record, now);
    if record.vested_in_range(now) {
        let n = unlocked_len(record.tranches@, record.start, now);
        lemma_unlocked_len_characterized(record.tranches@, record.start, now);
        law_tranche_stops_at_the_first_locked(record, now, n);
        assert(i128::MIN <= sum(record.tranches@.take(n)) <= i128::MAX);
    }
    if log_after != log {
        assert(log_after.drop_last() =~= log);
    }
}

/// Settling with the token contract's answer in hand comes to the same: no
/// record is `NotFound`, no claimable amount `ArithmeticOverflow`, nothing due
/// zero, a refusal `TokenTransferFailed`, none of which writes anything; and a
/// payment answers with the amount and writes the settled record.
pub proof fn law_settlement_answers(
    before: Entries,
    id: u64,
    now: u64,
    transferred: bool,
    r: Result<i128, ForgeError>,
    after: Entries,
)
    requires
        before.claimed_to(id, now, transferred, r, after),
    ensures
        match before.stored(id) {
            None => r == Err::<i128, ForgeError>(ForgeError::NotFound) && after == before,
            Some(record) => {
                &&& !record.claimable_in_range(now) ==> r == Err::<i128, ForgeError>(
                    ForgeError::ArithmeticOverflow,
                ) && after == before
                &&& record.claimable_in_range(now) && record.claimable_at(now) == 0 ==> r == Ok::<
                    i128,
                    ForgeError,
                >(0) && after == before
                &&& record.claimable_in_range(now) && record.claimable_at(now) != 0 && !transferred
                    ==> r == Err::<i128, ForgeError>(ForgeError::TokenTransferFailed) && after
                    == before
                &&& record.claimable_in_range(now) && record.claimable_at(now) != 0 && transferred
                    ==> {
                    &&& r matches Ok(amount) && amount == record.claimable_at(now)
                    &&& after == before.with(id, record.settled_at(now))
                }
            },
        },
{
}

/// A payout is paid by one transfer: of its token, from the contract to its
/// beneficiary, of its amount. A request went through exactly when the token
/// contract carried it out.
pub proof fn law_payouts_are_paid_in_full(payout: Payout<'_>, contract: Address, asked: Asked)
    ensures
        payout.transfer_from(contract).token == *payout.token,
        payout.transfer_from(contract).from == contract,
        payout.transfer_from(contract).to == *payout.beneficiary,
        payout.transfer_from(contract).amount == payout.amount,
        asked.went_through() <==> asked.answer == Answer::Done,
{
}

} // verus!
