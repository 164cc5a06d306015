//! What holds of the contract as a whole.

use soroban_sdk::Address;
use vstd::prelude::*;

use crate::entries::{lemma_claim_wf, Entries, Stored};
use crate::error::ForgeError;
use crate::linear::{fits_i128, lemma_share, lemma_vested_bounds, VestingSchedule};
use crate::status::VestingStatus;
use crate::till::{Asked, Transfer};
use crate::tranche::{
    lemma_prefix_sums, lemma_sum_grows, lemma_sum_step, lemma_unlocked_bounds, lemma_unlocked_len,
    lemma_unlocked_len_at_least, sum, unlocked, unlocked_len, unlocks_by, well_ordered, Tranche,
    TrancheSchedule,
};

verus! {

// ---------------------------------------------------------------------------
// Linear schedules
// ---------------------------------------------------------------------------

/// Nothing has vested before the cliff, nor at the cliff itself when a ramp
/// follows it; everything has vested from the end of the duration on.
pub proof fn law_linear_boundaries(schedule: VestingSchedule, now: u64)
    requires
        schedule.wf(),
    ensures
        now < schedule.cliff_time() ==> schedule.vested_at(now) == 0,
        now == schedule.cliff_time() && schedule.cliff < schedule.duration ==> schedule.vested_at(
            now,
        ) == 0,
        now >= schedule.end_time() ==> schedule.vested_at(now) == schedule.total_amount,
{
    if now == schedule.cliff_time() && schedule.cliff < schedule.duration {
        let period = schedule.end_time() - schedule.cliff_time();
        assert(schedule.total_amount * 0 == 0);
        vstd::arithmetic::div_mod::lemma_div_basics(period);
    }
}

/// On the ramp the vested amount is the proportional share rounded down: a
/// claim never rounds up, and never falls a whole unit short.
pub proof fn law_linear_rounds_down(schedule: VestingSchedule, now: u64)
    requires
        schedule.wf(),
        schedule.cliff_time() <= now < schedule.end_time(),
    ensures
        schedule.vested_at(now) * (schedule.duration - schedule.cliff) <= schedule.total_amount * (
        now - schedule.cliff_time()),
        schedule.total_amount * (now - schedule.cliff_time()) < (schedule.vested_at(now) + 1) * (
        schedule.duration - schedule.cliff),
{
    let share = schedule.total_amount * (now - schedule.cliff_time());
    let period = schedule.end_time() - schedule.cliff_time();
    lemma_share(schedule.total_amount as int, now - schedule.cliff_time(), period);
    vstd::arithmetic::div_mod::lemma_fundamental_div_mod(share, period);
    vstd::arithmetic::div_mod::lemma_mod_bound(share, period);
    let q = share / period;
    assert(q * period == period * q) by (nonlinear_arith);
    assert((q + 1) * period == period * q + period) by (nonlinear_arith);
}

/// The vested amount of a linear schedule never decreases with time and stays
/// between zero and the total.
pub proof fn law_linear_never_decreases(schedule: VestingSchedule, t1: u64, t2: u64)
    requires
        schedule.wf(),
        t1 <= t2,
    ensures
        0 <= schedule.vested_at(t1) <= schedule.vested_at(t2) <= schedule.total_amount,
{
    lemma_vested_bounds(schedule, t1);
    lemma_vested_bounds(schedule, t2);
    if schedule.cliff_time() <= t1 && t2 < schedule.end_time() {
        lemma_share(
            schedule.total_amount as int,
            t1 - schedule.cliff_time(),
            schedule.end_time() - schedule.cliff_time(),
        );
        assert(schedule.total_amount * (t2 - schedule.cliff_time())
            == schedule.total_amount as int * (t2 - schedule.cliff_time()));
    }
}

/// The vested amount of a linear schedule whose end is a ledger time, and whose
/// total can be multiplied by the length of its ramp, never overflows. There is
/// a claimable amount exactly while no more was claimed than has vested.
pub proof fn law_linear_in_range(schedule: VestingSchedule, now: u64)
    requires
        schedule.wf(),
        schedule.end_time() <= u64::MAX,
        schedule.total_amount * (schedule.duration - schedule.cliff) <= i128::MAX,
    ensures
        schedule.vested_in_range(now),
        schedule.claimable_in_range(now) <==> schedule.claimed <= schedule.vested_at(now),
{
    lemma_vested_bounds(schedule, now);
    if schedule.cliff_time() <= now < schedule.end_time() {
        let total = schedule.total_amount as int;
        let passed = now - schedule.cliff_time();
        let period = schedule.duration - schedule.cliff;
        assert(0 <= total * passed <= total * period) by (nonlinear_arith)
            requires
                total > 0,
                0 <= passed < period,
        ;
    }
}

// ---------------------------------------------------------------------------
// Tranche schedules
// ---------------------------------------------------------------------------

/// The first `unlocked_len` entries of a table have unlocked, and the next has
/// not.
pub proof fn lemma_unlocked_len_characterized(table: Seq<Tranche>, start: u64, now: u64)
    ensures
        0 <= unlocked_len(table, start, now) <= table.len(),
        forall|i: int|
            0 <= i < unlocked_len(table, start, now) ==> unlocks_by(
                #[trigger] table[i],
                start,
                now,
            ),
        unlocked_len(table, start, now) < table.len() ==> !unlocks_by(
            table[unlocked_len(table, start, now)],
            start,
            now,
        ),
    decreases table.len(),
{
    if table.len() > 0 && unlocks_by(table[0], start, now) {
        let rest = table.drop_first();
        lemma_unlocked_len_characterized(rest, start, now);
        assert forall|i: int| 0 <= i < unlocked_len(table, start, now) implies unlocks_by(
            #[trigger] table[i],
            start,
            now,
        ) by {
            if i > 0 {
                assert(table[i] == rest[i - 1]);
            }
        }
    }
}

/// In a well-ordered table the entries that have unlocked are exactly the
/// first `unlocked_len`.
proof fn lemma_unlocked_iff_counted(table: Seq<Tranche>, start: u64, now: u64, i: int)
    requires
        well_ordered(table),
        0 <= i < table.len(),
    ensures
        unlocks_by(table[i], start, now) <==> i < unlocked_len(table, start, now),
{
    lemma_unlocked_len_characterized(table, start, now);
    let n = unlocked_len(table, start, now);
    if n < i {
        assert(table[n].unlock_at < table[i].unlock_at);
    }
}

/// The entries counted as unlocked are those that have unlocked, wherever they
/// stand in a well-ordered table.
pub proof fn lemma_unlocked_is_filter(table: Seq<Tranche>, start: u64, now: u64)
    requires
        well_ordered(table),
    ensures
        unlocked(table, start, now) == table.filter(|t: Tranche| unlocks_by(t, start, now)),
    decreases table.len(),
{
    reveal(Seq::filter);
    lemma_unlocked_len_characterized(table, start, now);
    if table.len() > 0 {
        let shorter = table.drop_last();
        assert(well_ordered(shorter)) by {
            assert forall|i: int| 0 <= i < shorter.len() implies shorter[i] == table[i] by {}
        }
        lemma_unlocked_is_filter(shorter, start, now);
        lemma_unlocked_iff_counted(table, start, now, table.len() - 1);
        let n = unlocked_len(table, start, now);
        if n == table.len() {
            lemma_unlocked_len(shorter, start, now, n - 1);
            assert(unlocked(table, start, now) =~= unlocked(shorter, start, now).push(
                table.last(),
            ));
        } else {
            lemma_unlocked_len(shorter, start, now, n);
            assert(unlocked(table, start, now) =~= unlocked(shorter, start, now));
        }
    }
}

/// No fewer entries have unlocked later on, and what they sum to grows with
/// each of them.
proof fn lemma_unlocked_grows(schedule: TrancheSchedule, t1: u64, t2: u64)
    requires
        schedule.wf(),
        t1 <= t2,
    ensures
        0 <= unlocked_len(schedule.tranches@, schedule.start, t1) <= unlocked_len(
            schedule.tranches@,
            schedule.start,
            t2,
        ) <= schedule.tranches@.len(),
        schedule.vested_at(t1) <= schedule.vested_at(t2),
        schedule.vested_at(t1) == schedule.vested_at(t2) ==> unlocked_len(
            schedule.tranches@,
            schedule.start,
            t1,
        ) == unlocked_len(schedule.tranches@, schedule.start, t2),
{
    let table = schedule.tranches@;
    let n1 = unlocked_len(table, schedule.start, t1);
    lemma_unlocked_len_characterized(table, schedule.start, t1);
    assert forall|i: int| 0 <= i < n1 implies unlocks_by(
        #[trigger] table[i],
        schedule.start,
        t2,
    ) by {
        assert(unlocks_by(table[i], schedule.start, t1));
    }
    lemma_unlocked_len_at_least(table, schedule.start, t2, n1);
    lemma_sum_grows(table, n1, unlocked_len(table, schedule.start, t2));
}

/// The unlocked amount is the sum of every tranche that has unlocked.
pub proof fn law_tranche_sum_of_unlocked(schedule: TrancheSchedule, now: u64)
    requires
        schedule.wf(),
    ensures
        schedule.vested_at(now) == sum(
            schedule.tranches@.filter(|t: Tranche| unlocks_by(t, schedule.start, now)),
        ),
{
    lemma_unlocked_is_filter(schedule.tranches@, schedule.start, now);
}

/// Nothing is unlocked exactly until the first tranche unlocks, and the whole
/// table exactly once the last has. Before the start nothing is.
pub proof fn law_tranche_boundaries(schedule: TrancheSchedule, now: u64)
    requires
        schedule.wf(),
    ensures
        now < schedule.start ==> schedule.vested_at(now) == 0,
        schedule.vested_at(now) == 0 <==> !unlocks_by(
            schedule.tranches@[0],
            schedule.start,
            now,
        ),
        schedule.vested_at(now) == schedule.total_amount <==> unlocks_by(
            schedule.tranches@.last(),
            schedule.start,
            now,
        ),
{
    let table = schedule.tranches@;
    lemma_unlocked_len_characterized(table, schedule.start, now);
    lemma_prefix_sums(table, unlocked_len(table, schedule.start, now));
    lemma_unlocked_iff_counted(table, schedule.start, now, 0);
    lemma_unlocked_iff_counted(table, schedule.start, now, table.len() - 1);
    assert(table.take(table.len() as int) =~= table);
}

/// After exactly `n` tranches have unlocked the unlocked amount is the sum of
/// the first `n` amounts.
pub proof fn law_tranche_steps(schedule: TrancheSchedule, now: u64, n: int)
    requires
        schedule.wf(),
        0 <= n <= schedule.tranches@.len(),
        n > 0 ==> unlocks_by(schedule.tranches@[n - 1], schedule.start, now),
        n < schedule.tranches@.len() ==> !unlocks_by(schedule.tranches@[n], schedule.start, now),
    ensures
        schedule.vested_at(now) == sum(schedule.tranches@.take(n)),
{
    let table = schedule.tranches@;
    assert forall|i: int| 0 <= i < n implies unlocks_by(
        #[trigger] table[i],
        schedule.start,
        now,
    ) by {
        if i < n - 1 {
            assert(table[i].unlock_at < table[n - 1].unlock_at);
        }
    }
    lemma_unlocked_len(table, schedule.start, now, n);
}

/// Nothing accrues between unlocks, and every unlock counts: the unlocked
/// amount is the same at two times exactly when no tranche unlocks between
/// them.
pub proof fn law_tranche_accrues_only_at_unlocks(schedule: TrancheSchedule, t1: u64, t2: u64)
    requires
        schedule.wf(),
        t1 <= t2,
    ensures
        schedule.vested_at(t1) == schedule.vested_at(t2) <==> (forall|i: int|
            0 <= i < schedule.tranches@.len() ==> (unlocks_by(
                #[trigger] schedule.tranches@[i],
                schedule.start,
                t2,
            ) ==> unlocks_by(schedule.tranches@[i], schedule.start, t1))),
{
    let table = schedule.tranches@;
    let n1 = unlocked_len(table, schedule.start, t1);
    let n2 = unlocked_len(table, schedule.start, t2);
    lemma_unlocked_grows(schedule, t1, t2);
    assert forall|i: int| 0 <= i < table.len() implies (unlocks_by(
        #[trigger] table[i],
        schedule.start,
        t2,
    ) <==> i < n2) && (unlocks_by(table[i], schedule.start, t1) <==> i < n1) by {
        lemma_unlocked_iff_counted(table, schedule.start, t1, i);
        lemma_unlocked_iff_counted(table, schedule.start, t2, i);
    }
    if n1 < n2 {
        assert(unlocks_by(table[n1], schedule.start, t2));
        assert(!unlocks_by(table[n1], schedule.start, t1));
    }
}

/// The unlocked amount never decreases with time and stays between zero and
/// the total.
pub proof fn law_tranche_never_decreases(schedule: TrancheSchedule, t1: u64, t2: u64)
    requires
        schedule.wf(),
        t1 <= t2,
    ensures
        0 <= schedule.vested_at(t1) <= schedule.vested_at(t2) <= schedule.total_amount,
{
    lemma_unlocked_bounds(schedule, t1);
    lemma_unlocked_bounds(schedule, t2);
    lemma_unlocked_grows(schedule, t1, t2);
}

/// A tranche at the offset `u64::MAX` is never reached, as long as the clock
/// does not stand `u64::MAX` seconds past the start, which only a schedule
/// started at ledger time zero could see.
pub proof fn law_tranche_max_offset_never_unlocks(schedule: TrancheSchedule, now: u64)
    requires
        schedule.wf(),
        schedule.tranches@.last().unlock_at == u64::MAX,
        schedule.start > 0 || now < u64::MAX,
    ensures
        schedule.vested_at(now) <= schedule.total_amount - schedule.tranches@.last().amount,
        schedule.vested_at(now) < schedule.total_amount,
{
    let table = schedule.tranches@;
    let last = table.len() - 1;
    lemma_unlocked_len_characterized(table, schedule.start, now);
    lemma_unlocked_iff_counted(table, schedule.start, now, last);
    lemma_sum_step(table, last);
    assert(table.take(last + 1) =~= table);
    lemma_sum_grows(table, unlocked_len(table, schedule.start, now), last);
}

/// The unlocked amount of a well-formed tranche schedule never overflows,
/// whatever the offsets and the ledger time. There is a claimable amount
/// exactly while no more was claimed than has unlocked.
pub proof fn law_tranche_always_in_range(schedule: TrancheSchedule, now: u64)
    requires
        schedule.wf(),
    ensures
        schedule.vested_in_range(now),
        schedule.claimable_in_range(now) <==> schedule.claimed <= schedule.vested_at(now),
{
    let table = schedule.tranches@;
    lemma_unlocked_bounds(schedule, now);
    lemma_unlocked_len_at_least(table, schedule.start, now, 0);
    assert forall|n: int|
        0 <= n <= unlocked_len(table, schedule.start, now) implies fits_i128(
        sum(#[trigger] table.take(n)),
    ) by {
        lemma_prefix_sums(table, n);
    }
}

/// Of all orderings of the same tranches at most one is accepted: two
/// well-ordered tables with the same entries are the same table.
pub proof fn law_one_ordering_is_accepted(a: Seq<Tranche>, b: Seq<Tranche>)
    requires
        well_ordered(a),
        well_ordered(b),
        a.to_multiset() == b.to_multiset(),
    ensures
        a == b,
    decreases a.len(),
{
    broadcast use vstd::seq_lib::group_to_multiset_ensures;

    assert(a.len() == b.len()) by {
        assert(a.to_multiset().len() == a.len());
        assert(b.to_multiset().len() == b.len());
    }
    if a.len() > 0 {
        let last = a.len() - 1;
        assert(b.to_multiset().count(a[last]) > 0 && a.to_multiset().count(b[last]) > 0) by {
            assert(a.contains(a[last]));
            assert(b.contains(b[last]));
        }
        let i = b.index_of(a[last]);
        let j = a.index_of(b[last]);
        assert(b.contains(a[last]) && a.contains(b[last]));
        assert(0 <= i <= last && b[i] == a[last]);
        assert(0 <= j <= last && a[j] == b[last]);
        assert(i == last) by {
            if i < last {
                assert(b[i].unlock_at < b[last].unlock_at);
                assert(a[j].unlock_at <= a[last].unlock_at);
            }
        }
        let rest_a = a.drop_last();
        let rest_b = b.drop_last();
        assert forall|k: int| 0 <= k < last implies rest_a[k] == a[k] && rest_b[k] == b[k] by {}
        assert(a =~= rest_a.push(a[last]));
        assert(b =~= rest_b.push(b[last]));
        assert(rest_a.to_multiset() =~= a.to_multiset().remove(a[last]));
        assert(rest_b.to_multiset() =~= b.to_multiset().remove(b[last]));
        law_one_ordering_is_accepted(rest_a, rest_b);
    } else {
        assert(a =~= b);
    }
}

// ---------------------------------------------------------------------------
// Claims
// ---------------------------------------------------------------------------

/// What has vested of a well-formed record of either kind never decreases and
/// stays between zero and the total.
proof fn lemma_vested_never_decreases(record: Stored, t1: u64, t2: u64)
    requires
        record.wf(),
        t1 <= t2,
    ensures
        0 <= record.vested_at(t1) <= record.vested_at(t2) <= record.total_amount(),
{
    match record {
        Stored::Linear(schedule) => law_linear_never_decreases(schedule, t1, t2),
        Stored::Tranche(schedule) => law_tranche_never_decreases(schedule, t1, t2),
    }
}

/// Whether two records are of one kind and agree in everything but the claimed
/// amount and the stored status: parties, total, start, and timings or unlock
/// table.
pub open spec fn same_terms(a: Stored, b: Stored) -> bool {
    match (a, b) {
        (Stored::Linear(a), Stored::Linear(b)) => b == (VestingSchedule {
            claimed: b.claimed,
            status: b.status,
            ..a
        }),
        (Stored::Tranche(a), Stored::Tranche(b)) => b == (TrancheSchedule {
            claimed: b.claimed,
            status: b.status,
            ..a
        }),
        _ => false,
    }
}

/// A settled claim changes the claimed amount and the stored status and
/// nothing else: every term of a schedule is immutable.
pub proof fn law_claim_keeps_terms(record: Stored, now: u64)
    ensures
        same_terms(record, record.settled_at(now)),
{
}

/// A settled claim brings the claimed amount up to exactly what has vested:
/// it neither overpays nor underpays, and nothing is claimable right after it.
pub proof fn law_claim_pays_what_vested(record: Stored, now: u64)
    requires
        record.wf(),
        record.claimable_in_range(now),
    ensures
        record.settled_at(now).claimed() == record.claimed() + record.claimable_at(now),
        record.settled_at(now).claimed() == record.vested_at(now),
        record.settled_at(now).claimable_in_range(now),
        record.settled_at(now).claimable_at(now) == 0,
{
    lemma_vested_never_decreases(record, now, now);
}

/// A later claim pays exactly what vested since the last one, which is never
/// negative.
pub proof fn law_later_claim_pays_the_difference(record: Stored, t1: u64, t2: u64)
    requires
        record.wf(),
        t1 <= t2,
    ensures
        record.settled_at(t1).claimable_at(t2) == record.vested_at(t2) - record.vested_at(t1),
        record.settled_at(t1).claimable_at(t2) >= 0,
{
    lemma_vested_never_decreases(record, t1, t2);
}

/// The sum of the transfers in `log` that went through.
pub open spec fn moved(log: Seq<Asked>) -> int
    decreases log.len(),
{
    if log.len() == 0 {
        0
    } else {
        moved(log.drop_last()) + if log.last().went_through() {
            log.last().transfer.amount as int
        } else {
            0
        }
    }
}

/// Whether `transfer` pays some positive amount, out of the balance of
/// `contract`, to the beneficiary of `record` in its token.
pub open spec fn pays(transfer: Transfer, contract: Address, record: Stored) -> bool {
    &&& transfer.token == record.token()
    &&& transfer.from == contract
    &&& transfer.to == record.beneficiary()
    &&& transfer.amount > 0
}

/// A claim asks for a transfer exactly where a payout is due, for one only,
/// and that one pays the claimable amount to the beneficiary. A claim on an
/// unknown id asks for none, and so does one with nothing to pay.
pub proof fn law_claim_asks_only_for_what_is_owed(
    contract: Address,
    id: u64,
    now: u64,
    before: Entries,
    log: Seq<Asked>,
    r: Result<i128, ForgeError>,
    after: Entries,
    log_after: Seq<Asked>,
)
    requires
        before.claimed_through(contract, id, now, log, r, after, log_after),
    ensures
        before.stored(id) is None ==> log_after == log,
        before.stored(id) matches Some(record) ==> {
            &&& !record.claimable_in_range(now) || record.claimable_at(now) == 0 ==> log_after
                == log
            &&& record.claimable_in_range(now) && record.claimable_at(now) != 0 ==> {
                &&& log_after.len() == log.len() + 1
                &&& log_after.drop_last() == log
                &&& log_after.last().transfer.amount == record.claimable_at(now)
                &&& pays(log_after.last().transfer, contract, record)
            }
        },
{
    if before.payout_due(id, now) {
        assert(log_after.drop_last() =~= log);
    }
}

/// A claim that succeeded is followed by a claim at the same time that pays
/// nothing, asks for no transfer and writes nothing.
pub proof fn law_repeated_claim_is_a_no_op(
    contract: Address,
    id: u64,
    now: u64,
    before: Entries,
    log: Seq<Asked>,
    first: Result<i128, ForgeError>,
    between: Entries,
    log_between: Seq<Asked>,
    second: Result<i128, ForgeError>,
    after: Entries,
    log_after: Seq<Asked>,
)
    requires
        before.wf(),
        before.claimed_through(contract, id, now, log, first, between, log_between),
        first is Ok,
        between.claimed_through(contract, id, now, log_between, second, after, log_after),
    ensures
        second == Ok::<i128, ForgeError>(0),
        after == between,
        log_after == log_between,
{
    let record = before.stored(id)->0;
    law_claim_pays_what_vested(record, now);
}

/// Every claim that is answered with an error, a failed transfer among them,
/// leaves all entries as they were and has moved nothing. A claim of zero does
/// not even ask for a transfer.
pub proof fn law_refused_claim_changes_nothing(
    contract: Address,
    id: u64,
    now: u64,
    before: Entries,
    log: Seq<Asked>,
    r: Result<i128, ForgeError>,
    after: Entries,
    log_after: Seq<Asked>,
)
    requires
        before.claimed_through(contract, id, now, log, r, after, log_after),
        r is Err || r == Ok::<i128, ForgeError>(0),
    ensures
        after == before,
        moved(log_after) == moved(log),
        r is Ok ==> log_after == log,
{
    if before.payout_due(id, now) {
        assert(log_after.drop_last() =~= log);
    }
}

/// Once the amount owed has been transferred, the claim succeeds and pays
/// exactly that: no error comes after the payment.
pub proof fn law_no_error_after_the_transfer(
    contract: Address,
    id: u64,
    now: u64,
    before: Entries,
    log: Seq<Asked>,
    r: Result<i128, ForgeError>,
    after: Entries,
    log_after: Seq<Asked>,
)
    requires
        before.claimed_through(contract, id, now, log, r, after, log_after),
        log_after != log,
        log_after.last().went_through(),
    ensures
        r == Ok::<i128, ForgeError>(log_after.last().transfer.amount),
{
}

/// A record with more claimed than has vested, as a clock that ran backwards
/// would leave it, fails loudly: the claim pays, asks and writes nothing.
pub proof fn law_overclaimed_record_fails(
    contract: Address,
    id: u64,
    now: u64,
    before: Entries,
    log: Seq<Asked>,
    r: Result<i128, ForgeError>,
    after: Entries,
    log_after: Seq<Asked>,
)
    requires
        before.claimed_through(contract, id, now, log, r, after, log_after),
        before.stored(id) matches Some(record) && record.claimed() > record.vested_at(now),
    ensures
        r == Err::<i128, ForgeError>(ForgeError::ArithmeticOverflow),
        after == before,
        log_after == log,
{
}

/// A claim leaves the counter and every record under another id alone.
pub proof fn law_claim_touches_one_record(
    before: Entries,
    id: u64,
    now: u64,
    transferred: bool,
    r: Result<i128, ForgeError>,
    after: Entries,
    other: u64,
)
    requires
        before.claimed_to(id, now, transferred, r, after),
        other != id,
    ensures
        after.stored(other) == before.stored(other),
        after.count == before.count,
{
}

/// A claim is decided by the record under its id and the token contract's
/// answer alone: over any two sets of entries that hold the same record there,
/// the answer and the record written are the same.
pub proof fn law_claim_reads_one_record(
    a: Entries,
    b: Entries,
    id: u64,
    now: u64,
    transferred: bool,
    ra: Result<i128, ForgeError>,
    rb: Result<i128, ForgeError>,
    a_after: Entries,
    b_after: Entries,
)
    requires
        a.stored(id) == b.stored(id),
        a.claimed_to(id, now, transferred, ra, a_after),
        b.claimed_to(id, now, transferred, rb, b_after),
    ensures
        ra == rb,
        a_after.stored(id) == b_after.stored(id),
{
}

// ---------------------------------------------------------------------------
// Status
// ---------------------------------------------------------------------------

/// The derived status of a well-formed record: completed exactly once
/// everything has been claimed, locked while nothing can have vested, vesting
/// in between, and never revoked.
pub proof fn law_status_lifecycle(record: Stored, now: u64)
    requires
        record.wf(),
    ensures
        record.status_in_range(),
        record.status_at(now) is Completed <==> record.claimed() == record.total_amount(),
        record.status_at(now) is Locked ==> record.vested_at(now) == 0,
        record.status_at(now) !is Revoked,
        record.status() !is Revoked,
        match record {
            Stored::Linear(schedule) => schedule.claimed < schedule.total_amount ==> (
            schedule.status_at(now) is Locked <==> now < schedule.cliff_time()),
            Stored::Tranche(schedule) => schedule.claimed < schedule.total_amount ==> (
            schedule.status_at(now) is Locked <==> !unlocks_by(
                schedule.tranches@[0],
                schedule.start,
                now,
            )),
        },
{
    match record {
        Stored::Linear(_) => {},
        Stored::Tranche(schedule) => lemma_unlocked_bounds(schedule, now),
    }
}

/// The status that a settled claim stores is the one derived at its time.
pub proof fn law_stored_status_is_current(record: Stored, now: u64)
    ensures
        record.settled_at(now).status() == record.settled_at(now).status_at(now),
{
}

/// While the clock does not run backwards a schedule never goes back to being
/// locked.
pub proof fn law_status_never_relocks(record: Stored, t1: u64, t2: u64)
    requires
        t1 <= t2,
        record.status_at(t1) !is Locked,
    ensures
        record.status_at(t2) !is Locked,
{
}

// ---------------------------------------------------------------------------
// The id space
// ---------------------------------------------------------------------------

/// An id addresses a linear record or a tranche record, never both, and every
/// id in use was allocated by the counter.
pub proof fn law_kinds_share_no_id(entries: Entries, id: u64)
    requires
        entries.wf(),
    ensures
        !(entries.schedules.contains_key(id) && entries.tranche_schedules.contains_key(id)),
        entries.stored(id) is Some ==> 0 < id <= entries.count,
{
}

/// Creation, of either kind, uses an id that no record has, one past the last
/// id allocated, and keeps every earlier record.
pub proof fn law_creation_uses_a_fresh_id(entries: Entries, record: Stored, other: u64)
    requires
        entries.wf(),
        entries.count < u64::MAX,
    ensures
        entries.stored((entries.count + 1) as u64) is None,
        entries.created(record).stored((entries.count + 1) as u64) == Some(record),
        entries.created(record).count == entries.count + 1,
        other != entries.count + 1 ==> entries.created(record).stored(other) == entries.stored(
            other,
        ),
{
    let id = (entries.count + 1) as u64;
    assert(!entries.schedules.contains_key(id));
    assert(!entries.tranche_schedules.contains_key(id));
}

// ---------------------------------------------------------------------------
// Histories
// ---------------------------------------------------------------------------

/// One thing that happens to a contract.
pub enum Step {
    /// A fresh record is stored under the next id.
    Creation { record: Stored },
    /// A creation is refused.
    Refusal,
    /// A claim on `id` at `now` is answered with `r`, and the log of its till
    /// grows from `log` to `log_after`.
    Claim {
        id: u64,
        now: u64,
        log: Seq<Asked>,
        r: Result<i128, ForgeError>,
        log_after: Seq<Asked>,
    },
}

impl Step {
    /// Whether this step leads from `before` to `after`, claims being paid out
    /// of the balance of `contract`.
    pub open spec fn leads(self, contract: Address, before: Entries, after: Entries) -> bool {
        match self {
            Step::Creation { record } => {
                &&& record.wf()
                &&& record.claimed() == 0
                &&& before.count < u64::MAX
                &&& after == before.created(record)
            },
            Step::Refusal => after == before,
            Step::Claim { id, now, log, r, log_after } => before.claimed_through(
                contract,
                id,
                now,
                log,
                r,
                after,
                log_after,
            ),
        }
    }

    /// Whether this step is a claim on `id`.
    pub open spec fn claims_on(self, id: u64) -> bool {
        self matches Step::Claim { id: claimed, .. } && claimed == id
    }

    /// Whether every transfer that this step asked for pays the beneficiary of
    /// `record`, so that it asked for none without one.
    pub open spec fn asks_only_for(self, contract: Address, record: Option<Stored>) -> bool {
        self matches Step::Claim { log, log_after, .. } ==> {
            &&& log.is_prefix_of(log_after)
            &&& forall|k: int|
                log.len() <= k < log_after.len() ==> record is Some && pays(
                    (#[trigger] log_after[k]).transfer,
                    contract,
                    record->0,
                )
        }
    }

    /// What this step paid; only a claim that succeeds pays anything.
    pub open spec fn paid(self) -> int {
        match self {
            Step::Claim { r: Ok(amount), .. } => amount as int,
            _ => 0,
        }
    }

    /// What this step moved, by the log of its till.
    pub open spec fn moved(self) -> int {
        match self {
            Step::Claim { log, log_after, .. } => moved(log_after) - moved(log),
            _ => 0,
        }
    }
}

/// The sum of what the claims on `id` paid.
pub open spec fn paid_under(steps: Seq<Step>, id: u64) -> int
    decreases steps.len(),
{
    if steps.len() == 0 {
        0
    } else {
        paid_under(steps.drop_last(), id) + if steps.last().claims_on(id) {
            steps.last().paid()
        } else {
            0
        }
    }
}

/// The sum of what the claims on `id` moved.
pub open spec fn moved_under(steps: Seq<Step>, id: u64) -> int
    decreases steps.len(),
{
    if steps.len() == 0 {
        0
    } else {
        moved_under(steps.drop_last(), id) + if steps.last().claims_on(id) {
            steps.last().moved()
        } else {
            0
        }
    }
}

/// The sum of what all claims paid.
pub open spec fn paid_in_all(steps: Seq<Step>) -> int
    decreases steps.len(),
{
    if steps.len() == 0 {
        0
    } else {
        paid_in_all(steps.drop_last()) + steps.last().paid()
    }
}

/// The amount claimed under `id`, zero while nothing is stored there.
pub open spec fn claimed_under(entries: Entries, id: u64) -> int {
    match entries.stored(id) {
        Some(record) => record.claimed() as int,
        None => 0,
    }
}

/// A stretch of a contract's history: creations and claims of both kinds, under
/// any ids and in any order. `steps[i]` led from `states[i]` to
/// `states[i + 1]`.
pub struct History {
    /// The contract, whose balance pays the claims.
    pub contract: Address,
    /// What happened.
    pub steps: Seq<Step>,
    /// The entries before the first step and after each.
    pub states: Seq<Entries>,
}

impl History {
    /// Whether every step did what it does, starting from well-formed entries.
    pub open spec fn valid(self) -> bool {
        &&& self.states.len() == self.steps.len() + 1
        &&& self.states[0].wf()
        &&& forall|i: int|
            0 <= i < self.steps.len() ==> (#[trigger] self.steps[i]).leads(
                self.contract,
                self.states[i],
                self.states[i + 1],
            )
    }

    /// Whether nothing was stored at first.
    pub open spec fn from_the_beginning(self) -> bool {
        &&& self.states[0].count == 0
        &&& self.states[0].schedules == Map::<u64, VestingSchedule>::empty()
        &&& self.states[0].tranche_schedules == Map::<u64, TrancheSchedule>::empty()
    }

    /// The history without its last step.
    pub open spec fn shorter(self) -> History {
        History { steps: self.steps.drop_last(), states: self.states.drop_last(), ..self }
    }
}

/// A history without its last step is a history, and the last step leads on
/// from its end.
proof fn lemma_shorter_history(history: History)
    requires
        history.valid(),
        history.steps.len() > 0,
    ensures
        history.shorter().valid(),
        history.steps.last().leads(
            history.contract,
            history.shorter().states.last(),
            history.states.last(),
        ),
{
    let shorter = history.shorter();
    assert forall|i: int| 0 <= i < shorter.steps.len() implies (#[trigger] shorter.steps[i]).leads(
        shorter.contract,
        shorter.states[i],
        shorter.states[i + 1],
    ) by {
        assert(shorter.steps[i] == history.steps[i]);
    }
    assert(history.steps[history.steps.len() - 1].leads(
        history.contract,
        history.states[history.steps.len() - 1],
        history.states[history.steps.len() as int],
    ));
}

/// A claim keeps the entries well-formed and the terms of its record, and
/// raises the claimed amount and what the log shows as moved by what it paid.
proof fn lemma_claim_accounts(
    contract: Address,
    id: u64,
    now: u64,
    before: Entries,
    log: Seq<Asked>,
    r: Result<i128, ForgeError>,
    after: Entries,
    log_after: Seq<Asked>,
)
    requires
        before.wf(),
        before.claimed_through(contract, id, now, log, r, after, log_after),
    ensures
        after.wf(),
        before.stored(id) is None ==> after == before && r is Err,
        before.stored(id) matches Some(record) ==> {
            &&& after.stored(id) matches Some(kept)
            &&& same_terms(record, kept)
            &&& r is Ok ==> kept.claimed() == record.vested_at(now)
        },
        claimed_under(after, id) == claimed_under(before, id) + (match r {
            Ok(amount) => amount as int,
            Err(_) => 0,
        }),
        moved(log_after) == moved(log) + (match r {
            Ok(amount) => amount as int,
            Err(_) => 0,
        }),
        r matches Ok(amount) ==> amount >= 0,
{
    lemma_claim_wf(before, id, now);
    if let Some(record) = before.stored(id) {
        lemma_vested_never_decreases(record, now, now);
    }
    if before.payout_due(id, now) {
        assert(log_after.drop_last() =~= log);
    }
}

/// A step keeps the entries well-formed and every record in its place with its
/// terms, and raises the claimed amount under an id by what it paid there. A
/// record that it brings in has nothing claimed.
proof fn lemma_step_accounts(
    step: Step,
    contract: Address,
    before: Entries,
    after: Entries,
    id: u64,
)
    requires
        before.wf(),
        step.leads(contract, before, after),
    ensures
        after.wf(),
        before.stored(id) matches Some(record) ==> {
            &&& after.stored(id) matches Some(kept)
            &&& same_terms(record, kept)
            &&& !step.claims_on(id) ==> kept == record
        },
        claimed_under(after, id) == claimed_under(before, id) + (if step.claims_on(id) {
            step.paid()
        } else {
            0
        }),
        step.moved() == step.paid(),
        step.paid() >= 0,
{
    match step {
        Step::Creation { record } => {
            law_creation_uses_a_fresh_id(before, record, id);
        },
        Step::Refusal => {},
        Step::Claim { id: claimed, now, log, r, log_after } => {
            lemma_claim_accounts(contract, claimed, now, before, log, r, after, log_after);
            if claimed != id {
                law_claim_touches_one_record(
                    before,
                    claimed,
                    now,
                    before.payout_due(claimed, now) && log_after.last().went_through(),
                    r,
                    after,
                    id,
                );
            }
        },
    }
}

/// The claimed amount of a well-formed record lies between zero and its total.
proof fn lemma_claimed_bounds(record: Stored)
    requires
        record.wf(),
    ensures
        0 <= record.claimed() <= record.total_amount(),
{
}

/// Conservation: through any history, with creations and with claims under
/// other ids in between, at any times and with any transfers failing, the
/// claimed amount under an id rises by exactly what the claims on it said they
/// paid, which is exactly what their transfers moved. Counted from the
/// beginning, it is that sum. Every transfer that the claims ask for pays the
/// beneficiary of the record in its token. No claim pays a negative amount, the
/// claimed amount never passes the total, and the terms of a stored record stay
/// what they were.
pub proof fn law_conservation(history: History, id: u64)
    requires
        history.valid(),
    ensures
        history.states.last().wf(),
        claimed_under(history.states.last(), id) - claimed_under(history.states[0], id)
            == paid_under(history.steps, id),
        history.from_the_beginning() ==> claimed_under(history.states.last(), id) == paid_under(
            history.steps,
            id,
        ),
        moved_under(history.steps, id) == paid_under(history.steps, id),
        forall|i: int|
            0 <= i < history.steps.len() ==> (#[trigger] history.steps[i]).moved()
                == history.steps[i].paid() && history.steps[i].paid() >= 0,
        history.states[0].stored(id) matches Some(record) ==> {
            &&& history.states.last().stored(id) matches Some(kept)
            &&& same_terms(record, kept)
        },
        history.states.last().stored(id) matches Some(kept) ==> 0 <= kept.claimed()
            <= kept.total_amount(),
        forall|i: int|
            0 <= i < history.steps.len() && (#[trigger] history.steps[i]).claims_on(id)
                ==> history.steps[i].asks_only_for(
                history.contract,
                history.states.last().stored(id),
            ),
    decreases history.steps.len(),
{
    if history.steps.len() > 0 {
        let n = history.steps.len() - 1;
        let shorter = history.shorter();
        let before = shorter.states.last();
        let after = history.states.last();
        lemma_shorter_history(history);
        law_conservation(shorter, id);
        lemma_step_accounts(history.steps[n], history.contract, before, after, id);
        assert forall|i: int| 0 <= i < history.steps.len() implies (
        #[trigger] history.steps[i]).moved() == history.steps[i].paid() && history.steps[i].paid()
            >= 0 by {
            if i < n {
                assert(shorter.steps[i] == history.steps[i]);
            }
        }
        if let Step::Claim { id: claimed, now, log, r, log_after } = history.steps[n] {
            law_claim_asks_only_for_what_is_owed(
                history.contract,
                claimed,
                now,
                before,
                log,
                r,
                after,
                log_after,
            );
            assert(log.is_prefix_of(log_after)) by {
                if log_after != log {
                    assert(log =~= log_after.take(log.len() as int));
                }
            }
        }
        assert forall|i: int|
            0 <= i < history.steps.len() && (#[trigger] history.steps[i]).claims_on(
                id,
            ) implies history.steps[i].asks_only_for(history.contract, after.stored(id)) by {
            if i < n {
                assert(shorter.steps[i] == history.steps[i]);
                assert(shorter.steps[i].asks_only_for(history.contract, before.stored(id)));
            }
        }
    }
    if let Some(kept) = history.states.last().stored(id) {
        lemma_claimed_bounds(kept);
    }
}

/// One till sees every payment: where all claims of a history go through one
/// till, whose log is `logs[i]` before `steps[i]`, the log only ever grows, and
/// what it shows as moved rises by exactly what all claims together paid.
pub proof fn law_one_till_shows_every_payment(history: History, logs: Seq<Seq<Asked>>)
    requires
        history.valid(),
        logs.len() == history.steps.len() + 1,
        forall|i: int|
            0 <= i < history.steps.len() ==> match #[trigger] history.steps[i] {
                Step::Claim { log, log_after, .. } => log == logs[i] && log_after == logs[i + 1],
                _ => logs[i + 1] == logs[i],
            },
    ensures
        logs[0].is_prefix_of(logs.last()),
        moved(logs.last()) - moved(logs[0]) == paid_in_all(history.steps),
    decreases history.steps.len(),
{
    if history.steps.len() > 0 {
        let n = history.steps.len() - 1;
        let shorter = history.shorter();
        let before = shorter.states.last();
        let after = history.states.last();
        lemma_shorter_history(history);
        assert forall|i: int| 0 <= i < shorter.steps.len() implies match #[trigger] shorter.steps[i] {
            Step::Claim { log, log_after, .. } => log == logs.drop_last()[i] && log_after
                == logs.drop_last()[i + 1],
            _ => logs.drop_last()[i + 1] == logs.drop_last()[i],
        } by {
            assert(shorter.steps[i] == history.steps[i]);
        }
        law_one_till_shows_every_payment(shorter, logs.drop_last());
        law_conservation(shorter, 0);
        lemma_step_accounts(history.steps[n], history.contract, before, after, 0);
        assert(match history.steps[n] {
            Step::Claim { log, log_after, .. } => log == logs[n] && log_after == logs[n + 1],
            _ => logs[n + 1] == logs[n],
        });
        if let Step::Claim { id, now, log, r, log_after } = history.steps[n] {
            if before.payout_due(id, now) {
                assert(log_after.drop_last() =~= log);
            }
        }
        assert(forall|i: int|
            0 <= i < logs[n].len() ==> logs[n + 1][i] == #[trigger] logs[n][i]);
        assert(logs[0] =~= logs.last().take(logs[0].len() as int));
    }
}

/// At any time that no claim on an id came after, no more has been claimed
/// under it than has vested: a clock that does not run backwards never makes a
/// claim fail for having claimed too much.
pub proof fn law_claimed_stays_within_vested(history: History, id: u64, now: u64)
    requires
        history.valid(),
        forall|i: int|
            0 <= i < history.steps.len() ==> (#[trigger] history.steps[i] matches Step::Claim {
                id: claimed,
                now: time,
                ..
            } ==> claimed == id ==> time <= now),
        history.states[0].stored(id) matches Some(record) ==> record.claimed() <= record.vested_at(
            now,
        ),
    ensures
        history.states.last().stored(id) matches Some(record) ==> record.claimed()
            <= record.vested_at(now),
    decreases history.steps.len(),
{
    if history.steps.len() > 0 {
        let n = history.steps.len() - 1;
        let shorter = history.shorter();
        let before = shorter.states.last();
        let after = history.states.last();
        let step = history.steps[n];
        lemma_shorter_history(history);
        assert forall|i: int| 0 <= i < shorter.steps.len() implies (
        #[trigger] shorter.steps[i] matches Step::Claim { id: claimed, now: time, .. } ==> claimed
            == id ==> time <= now) by {
            assert(shorter.steps[i] == history.steps[i]);
        }
        law_claimed_stays_within_vested(shorter, id, now);
        law_conservation(shorter, id);
        lemma_step_accounts(step, history.contract, before, after, id);
        if let Some(kept) = after.stored(id) {
            lemma_vested_never_decreases(kept, now, now);
            if step.claims_on(id) {
                if let Step::Claim { now: time, log, r, log_after, .. } = step {
                    lemma_claim_accounts(
                        history.contract,
                        id,
                        time,
                        before,
                        log,
                        r,
                        after,
                        log_after,
                    );
                    lemma_vested_never_decreases(kept, time, now);
                }
            }
        }
    }
}

/// Once a claim on a schedule has succeeded at a time when everything had
/// vested, its claims have paid and moved the total, exactly once, whatever
/// happened before, in between and afterwards: the record stays completed.
pub proof fn law_total_is_paid_exactly_once(history: History, id: u64, k: int)
    requires
        history.valid(),
        claimed_under(history.states[0], id) == 0,
        0 <= k < history.steps.len(),
        history.steps[k] matches Step::Claim { id: claimed, now, r, .. } && claimed == id && r is Ok
            && history.states[k].stored(id)->0.vested_at(now)
            == history.states[k].stored(id)->0.total_amount(),
    ensures
        history.states[k].stored(id) is Some,
        history.states.last().stored(id) matches Some(kept) && {
            &&& same_terms(history.states[k].stored(id)->0, kept)
            &&& paid_under(history.steps, id) == kept.total_amount()
            &&& moved_under(history.steps, id) == kept.total_amount()
            &&& forall|t: u64| #[trigger] kept.status_at(t) == VestingStatus::Completed
        },
    decreases history.steps.len(),
{
    let n = history.steps.len() - 1;
    let shorter = history.shorter();
    let before = shorter.states.last();
    let after = history.states.last();
    lemma_shorter_history(history);
    law_conservation(shorter, id);
    law_conservation(history, id);
    lemma_step_accounts(history.steps[n], history.contract, before, after, id);
    if k < n {
        assert(shorter.steps[k] == history.steps[k]);
        assert(shorter.states[k] == history.states[k]);
        law_total_is_paid_exactly_once(shorter, id, k);
    } else if let Step::Claim { now, log, r, log_after, .. } = history.steps[n] {
        lemma_claim_accounts(history.contract, id, now, before, log, r, after, log_after);
    }
}

/// Through every history of a contract the entries stay well-formed, every id
/// from one to the counter holds a record and no other id does, and what was
/// created under an id stays there, with its kind and its terms.
pub proof fn law_every_id_keeps_its_record(history: History)
    requires
        history.valid(),
        history.from_the_beginning(),
    ensures
        history.states.last().wf(),
        forall|id: u64|
            (#[trigger] history.states.last().stored(id)) is Some <==> 0 < id
                <= history.states.last().count,
        forall|i: int|
            0 <= i < history.steps.len() ==> (#[trigger] history.steps[i] matches Step::Creation {
                record,
            } ==> {
                &&& history.states.last().stored(
                    (history.states[i].count + 1) as u64,
                ) matches Some(kept)
                &&& same_terms(record, kept)
            }),
    decreases history.steps.len(),
{
    if history.steps.len() > 0 {
        let n = history.steps.len() - 1;
        let shorter = history.shorter();
        let before = shorter.states.last();
        let after = history.states.last();
        lemma_shorter_history(history);
        law_every_id_keeps_its_record(shorter);
        assert forall|id: u64|
            {
                &&& (#[trigger] after.stored(id)) is Some <==> 0 < id <= after.count
                &&& before.stored(id) matches Some(record) ==> {
                    &&& after.stored(id) matches Some(kept)
                    &&& same_terms(record, kept)
                }
            } by {
            assert(before.stored(id) is Some <==> 0 < id <= before.count);
            lemma_step_accounts(history.steps[n], history.contract, before, after, id);
            if let Step::Creation { record } = history.steps[n] {
                law_creation_uses_a_fresh_id(before, record, id);
            }
        }
        lemma_step_accounts(history.steps[n], history.contract, before, after, 0);
        if let Step::Creation { record } = history.steps[n] {
            law_creation_uses_a_fresh_id(before, record, 0);
        }
        assert forall|i: int| 0 <= i < history.steps.len() implies (
        #[trigger] history.steps[i] matches Step::Creation { record } ==> {
            &&& after.stored((history.states[i].count + 1) as u64) matches Some(kept)
            &&& same_terms(record, kept)
        }) by {
            if i < n {
                assert(shorter.steps[i] == history.steps[i]);
                assert(shorter.states[i] == history.states[i]);
                let id = (history.states[i].count + 1) as u64;
                assert(history.steps[i] is Creation ==> before.stored(id) is Some);
                assert(after.stored(id) is Some <==> 0 < id <= after.count);
            }
        }
    }
}

} // verus!
