//! The rules on single records, at their edges, and what holds of the contract
//! as a whole on concrete values.

use soroban_sdk::testutils::{Address as _, ContractFunctionSet, EnvTestConfig};
use soroban_sdk::token::{StellarAssetClient, TokenClient};
use soroban_sdk::{Address, Env, IntoVal, Val};
use std::cell::Cell;
use std::rc::Rc;
use vesting::contract::StoredRef;
use vesting::{
    Authorization, ForgeError, Payout, Receipt, Till, Tranche, TrancheSchedule, Vesting,
    VestingSchedule, VestingStatus,
};

fn ledger() -> Env {
    let env = Env::new_with_config(EnvTestConfig {
        capture_snapshot_at_drop: false,
    });
    env.mock_all_auths();
    env
}

fn linear(env: &Env, total_amount: i128, start: u64, cliff: u64, duration: u64) -> VestingSchedule {
    VestingSchedule {
        beneficiary: Address::generate(env),
        token: Address::generate(env),
        total_amount,
        start,
        cliff,
        duration,
        claimed: 0,
        status: VestingStatus::Locked,
    }
}

fn entry(unlock_at: u64, amount: i128) -> Tranche {
    Tranche { unlock_at, amount }
}

fn tranches(env: &Env, start: u64, table: Vec<Tranche>) -> TrancheSchedule {
    TrancheSchedule {
        beneficiary: Address::generate(env),
        token: Address::generate(env),
        total_amount: table.iter().map(|tranche| tranche.amount).sum(),
        start,
        tranches: table,
        claimed: 0,
        status: VestingStatus::Locked,
    }
}

fn create(vesting: &mut Vesting, env: &Env, now: u64) -> Result<u64, ForgeError> {
    let beneficiary = Address::generate(env);
    let authorization = Authorization {
        by: beneficiary.clone(),
    };
    let token = Address::generate(env);
    vesting.create_schedule(now, beneficiary, token, 10_000, 1_000, 4_000, &authorization)
}

fn create_table(
    vesting: &mut Vesting,
    env: &Env,
    token: &Address,
    now: u64,
    table: Vec<Tranche>,
) -> Result<u64, ForgeError> {
    let beneficiary = Address::generate(env);
    let authorization = Authorization {
        by: beneficiary.clone(),
    };
    vesting.create_tranche_schedule(now, beneficiary, token.clone(), table, &authorization)
}

/// A token that counts the transfers it is asked for, and carries them out in
/// name only, or refuses them.
struct Counter {
    asked: Rc<Cell<u32>>,
    accepts: bool,
}

impl ContractFunctionSet for Counter {
    fn call(&self, func: &str, env: Env, _args: &[Val]) -> Option<Val> {
        if func != "transfer" {
            return None;
        }
        self.asked.set(self.asked.get() + 1);
        if self.accepts {
            Some(().into_val(&env))
        } else {
            None
        }
    }
}

/// The address of such a token on `env`, and its count.
fn counting_token(env: &Env, accepts: bool) -> (Address, Rc<Cell<u32>>) {
    let asked = Rc::new(Cell::new(0));
    let token = Counter {
        asked: asked.clone(),
        accepts,
    };
    (env.register(token, ()), asked)
}

/// A claim with the authorization of `beneficiary`.
fn claim(
    vesting: &mut Vesting,
    env: &Env,
    beneficiary: &Address,
    id: u64,
    now: u64,
) -> Result<i128, ForgeError> {
    let authorization = Authorization {
        by: beneficiary.clone(),
    };
    let mut till = Till::new(env.clone());
    vesting.claim(&mut till, &Address::generate(env), id, now, &authorization)
}

/// A funded token, and the address whose balance pays claims out.
struct Bank {
    env: Env,
    token: Address,
    contract: Address,
}

impl Bank {
    fn new() -> Bank {
        let env = ledger();
        let admin = Address::generate(&env);
        let token = env.register_stellar_asset_contract_v2(admin).address();
        let contract = Address::generate(&env);
        StellarAssetClient::new(&env, &token).mint(&contract, &1_000_000);
        Bank {
            env,
            token,
            contract,
        }
    }

    fn balance(&self, address: &Address) -> i128 {
        TokenClient::new(&self.env, &self.token).balance(address)
    }

    fn linear(&self, total_amount: i128, start: u64, cliff: u64, duration: u64) -> VestingSchedule {
        VestingSchedule {
            token: self.token.clone(),
            ..linear(&self.env, total_amount, start, cliff, duration)
        }
    }

    fn tranches(&self, start: u64, table: Vec<Tranche>) -> TrancheSchedule {
        TrancheSchedule {
            token: self.token.clone(),
            ..tranches(&self.env, start, table)
        }
    }

    /// Pay `amount` of the token to `beneficiary`.
    fn pay(&self, beneficiary: &Address, amount: i128) -> Option<Receipt> {
        let payout = Payout {
            beneficiary,
            token: &self.token,
            amount,
        };
        let authorization = Authorization {
            by: beneficiary.clone(),
        };
        let mut till = Till::new(self.env.clone());
        Vesting::pay(&mut till, &self.contract, &payout, &authorization)
    }

    /// Settle a claim after paying it, or without a payment.
    fn settle(
        &self,
        vesting: &mut Vesting,
        id: u64,
        now: u64,
        transferred: bool,
    ) -> Result<i128, ForgeError> {
        let receipt = match vesting.payout(id, now) {
            Ok(payout) if transferred => self.pay(payout.beneficiary, payout.amount),
            _ => None,
        };
        vesting.settle(&self.contract, id, now, receipt)
    }
}

// --- linear records ------------------------------------------------------

#[test]
fn vested_amount_is_the_floor_of_the_share() {
    let env = ledger();
    let schedule = linear(&env, 10_000, 100, 1_000, 4_000);
    assert_eq!(Vesting::vested_amount(&schedule, 1_099), Ok(0));
    assert_eq!(Vesting::vested_amount(&schedule, 1_100), Ok(0));
    assert_eq!(Vesting::vested_amount(&schedule, 1_101), Ok(3));
    assert_eq!(Vesting::vested_amount(&schedule, 2_100), Ok(3_333));
    assert_eq!(Vesting::vested_amount(&schedule, 4_099), Ok(9_996));
    assert_eq!(Vesting::vested_amount(&schedule, 4_100), Ok(10_000));
    assert_eq!(Vesting::vested_amount(&schedule, u64::MAX), Ok(10_000));
}

#[test]
fn vested_amount_never_decreases() {
    let env = ledger();
    let schedule = linear(&env, 997, 50, 13, 200);
    let mut last = 0;
    for now in 0..300 {
        let vested = Vesting::vested_amount(&schedule, now).unwrap();
        assert!(last <= vested && vested <= 997);
        last = vested;
    }
    assert_eq!(last, 997);
}

#[test]
fn vested_amount_rounds_a_negative_share_toward_zero() {
    let env = ledger();
    let schedule = linear(&env, -10, 0, 0, 3);
    assert_eq!(Vesting::vested_amount(&schedule, 1), Ok(-3));
    assert_eq!(Vesting::vested_amount(&schedule, 2), Ok(-6));
}

#[test]
fn vested_amount_reports_boundaries_past_the_clock() {
    let env = ledger();
    let far_cliff = linear(&env, 10, 2, u64::MAX - 1, u64::MAX);
    assert_eq!(
        Vesting::vested_amount(&far_cliff, 5),
        Err(ForgeError::ArithmeticOverflow)
    );
    assert_eq!(
        Vesting::current_status(&far_cliff, 5),
        Err(ForgeError::ArithmeticOverflow)
    );
    // The end matters only once the cliff has been reached.
    let far_end = linear(&env, 10, 2, 10, u64::MAX);
    assert_eq!(Vesting::vested_amount(&far_end, 11), Ok(0));
    assert_eq!(
        Vesting::vested_amount(&far_end, 12),
        Err(ForgeError::ArithmeticOverflow)
    );
    assert_eq!(
        Vesting::current_status(&far_end, 12),
        Ok(VestingStatus::Vesting)
    );
}

#[test]
fn vested_amount_is_exact_up_to_the_largest_product() {
    let env = ledger();
    let schedule = linear(&env, i128::MAX / 999, 0, 0, 1_000);
    assert_eq!(
        Vesting::vested_amount(&schedule, 999),
        Ok(i128::MAX / 999 * 999 / 1_000)
    );
    let larger = linear(&env, i128::MAX / 999 + 1, 0, 0, 1_000);
    assert_eq!(
        Vesting::vested_amount(&larger, 999),
        Err(ForgeError::ArithmeticOverflow)
    );
}

#[test]
fn claimable_amount_reports_a_claim_past_the_vested_amount() {
    let env = ledger();
    let mut schedule = linear(&env, 10_000, 0, 0, 100);
    schedule.claimed = 5_000;
    assert_eq!(Vesting::claimable_amount(&schedule, 51), Ok(100));
    assert_eq!(Vesting::claimable_amount(&schedule, 50), Ok(0));
    assert_eq!(
        Vesting::claimable_amount(&schedule, 49),
        Err(ForgeError::ArithmeticOverflow)
    );
    schedule.claimed = i128::MIN;
    assert_eq!(
        Vesting::claimable_amount(&schedule, 50),
        Err(ForgeError::ArithmeticOverflow)
    );
}

#[test]
fn current_status_follows_time_and_claims() {
    let env = ledger();
    let mut schedule = linear(&env, 100, 10, 5, 20);
    assert_eq!(Vesting::current_status(&schedule, 14), Ok(VestingStatus::Locked));
    assert_eq!(Vesting::current_status(&schedule, 15), Ok(VestingStatus::Vesting));
    assert_eq!(Vesting::current_status(&schedule, 99), Ok(VestingStatus::Vesting));
    schedule.claimed = 100;
    assert_eq!(Vesting::current_status(&schedule, 14), Ok(VestingStatus::Completed));
}

#[test]
fn validate_schedule_accepts_and_refuses() {
    assert_eq!(Vesting::validate_schedule(1, 0, 1), Ok(()));
    assert_eq!(Vesting::validate_schedule(1, 7, 7), Ok(()));
    assert_eq!(Vesting::validate_schedule(-1, 0, 1), Err(ForgeError::InvalidInput));
    assert_eq!(Vesting::validate_schedule(1, 0, 0), Err(ForgeError::InvalidInput));
    assert_eq!(Vesting::validate_schedule(1, 8, 7), Err(ForgeError::InvalidInput));
}

#[test]
fn settle_linear_writes_only_after_a_transfer() {
    let bank = Bank::new();
    let contract = &bank.contract;
    let mut schedule = bank.linear(10_000, 0, 0, 100);
    let beneficiary = schedule.beneficiary.clone();
    assert_eq!(
        Vesting::settle_linear(&mut schedule, contract, 30, None),
        Err(ForgeError::TokenTransferFailed)
    );
    assert_eq!(schedule.claimed, 0);
    assert_eq!(schedule.status, VestingStatus::Locked);
    let receipt = bank.pay(&beneficiary, 3_000);
    assert!(receipt.is_some());
    assert_eq!(Vesting::settle_linear(&mut schedule, contract, 30, receipt), Ok(3_000));
    assert_eq!(schedule.claimed, 3_000);
    assert_eq!(schedule.status, VestingStatus::Vesting);
    assert_eq!(Vesting::settle_linear(&mut schedule, contract, 30, None), Ok(0));
    assert_eq!(
        Vesting::settle_linear(&mut schedule, contract, 29, None),
        Err(ForgeError::ArithmeticOverflow)
    );
    let receipt = bank.pay(&beneficiary, 7_000);
    assert_eq!(Vesting::settle_linear(&mut schedule, contract, 100, receipt), Ok(7_000));
    assert_eq!(schedule.status, VestingStatus::Completed);
}

// --- tranche records -----------------------------------------------------

#[test]
fn validate_tranches_sums_the_table() {
    let table = vec![entry(0, 5), entry(1, 7), entry(u64::MAX, 9)];
    assert_eq!(Vesting::validate_tranches(&table), Ok(21));
}

#[test]
fn validate_tranches_reports_the_first_fault() {
    let overflow_first = vec![entry(1, i128::MAX), entry(2, 1), entry(3, -1)];
    assert_eq!(
        Vesting::validate_tranches(&overflow_first),
        Err(ForgeError::ArithmeticOverflow)
    );
    let invalid_first = vec![entry(1, i128::MAX), entry(1, 1), entry(3, 1)];
    assert_eq!(
        Vesting::validate_tranches(&invalid_first),
        Err(ForgeError::InvalidInput)
    );
}

#[test]
fn elapsed_since_saturates_at_zero() {
    assert_eq!(Vesting::elapsed_since(5, 12), 7);
    assert_eq!(Vesting::elapsed_since(12, 5), 0);
    assert_eq!(Vesting::elapsed_since(0, u64::MAX), u64::MAX);
}

#[test]
fn tranche_unlocked_is_a_step_function() {
    let env = ledger();
    let schedule = tranches(&env, 100, vec![entry(10, 3), entry(20, 4), entry(30, 5)]);
    for (now, expected) in [
        (0, 0),
        (109, 0),
        (110, 3),
        (119, 3),
        (120, 7),
        (129, 7),
        (130, 12),
        (u64::MAX, 12),
    ] {
        assert_eq!(Vesting::tranche_unlocked(&schedule, now), Ok(expected));
    }
}

#[test]
fn tranche_unlocked_stops_at_the_first_locked_entry() {
    let env = ledger();
    let schedule = tranches(&env, 0, vec![entry(10, 3), entry(50, 4), entry(20, 5)]);
    assert_eq!(Vesting::tranche_unlocked(&schedule, 30), Ok(3));
}

#[test]
fn tranche_unlocked_reports_a_sum_past_the_range() {
    let env = ledger();
    let mut schedule = tranches(&env, 0, vec![entry(10, 1), entry(20, 1)]);
    schedule.tranches[1].amount = i128::MAX;
    assert_eq!(Vesting::tranche_unlocked(&schedule, 10), Ok(1));
    assert_eq!(
        Vesting::tranche_unlocked(&schedule, 20),
        Err(ForgeError::ArithmeticOverflow)
    );
    schedule.claimed = i128::MIN;
    assert_eq!(
        Vesting::tranche_claimable(&schedule, 10),
        Err(ForgeError::ArithmeticOverflow)
    );
}

#[test]
fn tranche_status_follows_the_first_unlock() {
    let env = ledger();
    let mut schedule = tranches(&env, 100, vec![entry(10, 3), entry(20, 4)]);
    assert_eq!(Vesting::tranche_status(&schedule, 109), Ok(VestingStatus::Locked));
    assert_eq!(Vesting::tranche_status(&schedule, 110), Ok(VestingStatus::Vesting));
    schedule.claimed = 7;
    assert_eq!(Vesting::tranche_status(&schedule, 109), Ok(VestingStatus::Completed));
    let mut empty = tranches(&env, 100, vec![]);
    empty.total_amount = 1;
    assert_eq!(Vesting::tranche_status(&empty, 500), Ok(VestingStatus::Locked));
}

#[test]
fn largest_offset_unlocks_only_at_the_end_of_time() {
    let env = ledger();
    let schedule = tranches(&env, 1, vec![entry(10, 3), entry(u64::MAX, 4)]);
    assert_eq!(Vesting::tranche_unlocked(&schedule, u64::MAX), Ok(3));
    // A schedule started at ledger time zero reaches it on the last second.
    let from_zero = tranches(&env, 0, vec![entry(10, 3), entry(u64::MAX, 4)]);
    assert_eq!(Vesting::tranche_unlocked(&from_zero, u64::MAX - 1), Ok(3));
    assert_eq!(Vesting::tranche_unlocked(&from_zero, u64::MAX), Ok(7));
}

#[test]
fn nothing_is_unlocked_before_the_start() {
    let env = ledger();
    let mut schedule = tranches(&env, 100, vec![entry(0, 3), entry(20, 4)]);
    assert_eq!(Vesting::tranche_unlocked(&schedule, 99), Ok(0));
    assert_eq!(Vesting::tranche_claimable(&schedule, 99), Ok(0));
    assert_eq!(Vesting::tranche_status(&schedule, 99), Ok(VestingStatus::Locked));
    assert_eq!(Vesting::tranche_unlocked(&schedule, 100), Ok(3));
    assert_eq!(Vesting::tranche_status(&schedule, 100), Ok(VestingStatus::Vesting));
    schedule.claimed = 3;
    assert_eq!(
        Vesting::tranche_claimable(&schedule, 99),
        Err(ForgeError::ArithmeticOverflow)
    );
    schedule.claimed = 7;
    assert_eq!(Vesting::tranche_status(&schedule, 99), Ok(VestingStatus::Completed));
}

#[test]
fn the_unlocked_amount_changes_exactly_at_unlocks() {
    let env = ledger();
    let schedule = tranches(&env, 100, vec![entry(0, 3), entry(20, 4), entry(30, 5)]);
    for now in 90..140 {
        let before = Vesting::tranche_unlocked(&schedule, now).unwrap();
        let after = Vesting::tranche_unlocked(&schedule, now + 1).unwrap();
        assert_eq!(before != after, [100, 120, 130].contains(&(now + 1)));
        assert_eq!(before == schedule.total_amount, now >= 130);
    }
}

#[test]
fn one_ordering_of_a_table_is_accepted() {
    let (a, b, c) = (entry(1, 5), entry(2, 5), entry(3, 1));
    for (table, accepted) in [
        (vec![a, b, c], true),
        (vec![a, c, b], false),
        (vec![b, a, c], false),
        (vec![b, c, a], false),
        (vec![c, a, b], false),
        (vec![c, b, a], false),
    ] {
        assert_eq!(Vesting::validate_tranches(&table).is_ok(), accepted);
    }
}

#[test]
fn settle_tranche_writes_only_after_a_transfer() {
    let bank = Bank::new();
    let contract = &bank.contract;
    let mut schedule = bank.tranches(0, vec![entry(10, 3), entry(20, 4)]);
    let beneficiary = schedule.beneficiary.clone();
    assert_eq!(
        Vesting::settle_tranche(&mut schedule, contract, 15, None),
        Err(ForgeError::TokenTransferFailed)
    );
    assert_eq!(schedule.claimed, 0);
    assert_eq!(Vesting::settle_tranche(&mut schedule, contract, 5, None), Ok(0));
    let receipt = bank.pay(&beneficiary, 3);
    assert!(receipt.is_some());
    assert_eq!(Vesting::settle_tranche(&mut schedule, contract, 15, receipt), Ok(3));
    assert_eq!(schedule.claimed, 3);
    assert_eq!(schedule.status, VestingStatus::Vesting);
    assert_eq!(
        Vesting::settle_tranche(&mut schedule, contract, 5, None),
        Err(ForgeError::ArithmeticOverflow)
    );
    let receipt = bank.pay(&beneficiary, 4);
    assert_eq!(Vesting::settle_tranche(&mut schedule, contract, 25, receipt), Ok(4));
    assert_eq!(schedule.status, VestingStatus::Completed);
    assert_eq!(schedule.tranches, vec![entry(10, 3), entry(20, 4)]);
}

#[test]
fn records_clone_field_by_field() {
    let env = ledger();
    let schedule = linear(&env, 10, 1, 2, 3);
    let copy = schedule.clone();
    assert_eq!(copy.beneficiary, schedule.beneficiary);
    assert_eq!(copy.token, schedule.token);
    assert_ne!(copy.beneficiary, copy.token);
    assert_eq!((copy.start, copy.cliff, copy.duration), (1, 2, 3));
    let table = tranches(&env, 4, vec![entry(10, 3)]);
    let copy = table.clone();
    assert_eq!(copy.beneficiary, table.beneficiary);
    assert_eq!(copy.token, table.token);
    assert_eq!(copy.tranches, table.tranches);
}

// --- the contract --------------------------------------------------------

#[test]
fn creation_past_the_clock_leaves_the_counter() {
    let env = ledger();
    let mut vesting = Vesting::new();
    assert_eq!(
        create(&mut vesting, &env, u64::MAX - 999),
        Err(ForgeError::ArithmeticOverflow)
    );
    assert_eq!(vesting.count(), 0);
    assert_eq!(create(&mut vesting, &env, u64::MAX - 1_000), Ok(1));
    assert_eq!(vesting.count(), 1);
}

#[test]
fn an_exhausted_counter_refuses_both_kinds() {
    let env = ledger();
    let mut vesting = Vesting::restore(Some(u64::MAX));
    assert_eq!(vesting.next_id(), Err(ForgeError::ArithmeticOverflow));
    assert_eq!(
        create(&mut vesting, &env, 0),
        Err(ForgeError::ArithmeticOverflow)
    );
    assert_eq!(
        create_table(
            &mut vesting,
            &env,
            &Address::generate(&env),
            0,
            vec![entry(1, 1)]
        ),
        Err(ForgeError::ArithmeticOverflow)
    );
    assert_eq!(vesting.count(), u64::MAX);
    let mut last = Vesting::restore(Some(u64::MAX - 1));
    assert_eq!(create(&mut last, &env, 0), Ok(u64::MAX));
}

#[test]
fn an_allocated_id_is_counted() {
    let mut vesting = Vesting::new();
    assert_eq!(vesting.next_id(), Ok(1));
    assert_eq!(vesting.count(), 1);
    assert_eq!(vesting.next_id(), Ok(2));
    assert_eq!(vesting.count(), 2);
}

#[test]
fn every_id_keeps_its_record() {
    let bank = Bank::new();
    let mut vesting = Vesting::new();
    let table = || vec![entry(0, 5), entry(10, 6)];
    for now in 0..6 {
        if now % 2 == 0 {
            assert_eq!(create(&mut vesting, &bank.env, now), Ok(now + 1));
        } else {
            let id = create_table(&mut vesting, &bank.env, &bank.token, now, table());
            assert_eq!(id, Ok(now + 1));
            assert_eq!(bank.settle(&mut vesting, now + 1, now, true), Ok(5));
        }
        for id in 1..=vesting.count() {
            match vesting.load(id) {
                Ok(StoredRef::Linear(schedule)) => {
                    assert_eq!((id % 2, schedule.start), (1, id - 1))
                }
                Ok(StoredRef::Tranche(schedule)) => {
                    assert_eq!((id % 2, schedule.start), (0, id - 1));
                    assert_eq!(schedule.tranches, table());
                }
                Err(_) => panic!("id {} holds no record", id),
            }
        }
        assert!(vesting.load(0).is_err());
        assert!(vesting.load(vesting.count() + 1).is_err());
    }
}

#[test]
fn ids_count_up_over_both_kinds() {
    let env = ledger();
    let mut vesting = Vesting::new();
    assert_eq!(create(&mut vesting, &env, 0), Ok(1));
    assert_eq!(create_table(
            &mut vesting,
            &env,
            &Address::generate(&env),
            0,
            vec![entry(1, 1)]
        ), Ok(2));
    assert_eq!(create(&mut vesting, &env, 0), Ok(3));
    assert!(matches!(vesting.load(1), Ok(StoredRef::Linear(_))));
    assert!(matches!(vesting.load(2), Ok(StoredRef::Tranche(_))));
    assert!(matches!(vesting.load(3), Ok(StoredRef::Linear(_))));
    assert!(matches!(vesting.load(4), Err(ForgeError::NotFound)));
}

#[test]
fn a_linear_record_is_found_before_a_tranche_record() {
    let bank = Bank::new();
    let mut vesting = Vesting::restore(Some(1));
    vesting.put_tranche_schedule(1, bank.tranches(0, vec![entry(0, 5)]));
    assert_eq!(vesting.claimable(1, 50), Ok(5));
    vesting.put_schedule(1, bank.linear(100, 0, 0, 100));
    assert_eq!(vesting.claimable(1, 50), Ok(50));
    assert_eq!(bank.settle(&mut vesting, 1, 50, true), Ok(50));
    assert_eq!(vesting.get_tranche_schedule(1).unwrap().claimed, 0);
}

#[test]
fn payout_names_beneficiary_token_and_amount() {
    let env = ledger();
    let mut vesting = Vesting::restore(Some(2));
    let schedule = linear(&env, 100, 0, 0, 100);
    let table = tranches(&env, 0, vec![entry(10, 5)]);
    vesting.put_schedule(1, schedule.clone());
    vesting.put_tranche_schedule(2, table.clone());
    let owed = vesting.payout(1, 40).unwrap();
    assert_eq!(*owed.beneficiary, schedule.beneficiary);
    assert_eq!(*owed.token, schedule.token);
    assert_eq!(owed.amount, 40);
    let owed = vesting.payout(2, 40).unwrap();
    assert_eq!(*owed.beneficiary, table.beneficiary);
    assert_eq!(*owed.token, table.token);
    assert_eq!(owed.amount, 5);
    assert!(matches!(vesting.payout(3, 40), Err(ForgeError::NotFound)));
}

#[test]
fn settle_answers_every_outcome() {
    let bank = Bank::new();
    let mut vesting = Vesting::restore(Some(2));
    vesting.put_schedule(1, bank.linear(100, 0, 0, 100));
    vesting.put_schedule(2, bank.linear(i128::MAX, 0, 0, 100));
    assert_eq!(bank.settle(&mut vesting, 3, 40, true), Err(ForgeError::NotFound));
    assert_eq!(bank.settle(&mut vesting, 2, 40, true), Err(ForgeError::ArithmeticOverflow));
    assert_eq!(bank.settle(&mut vesting, 1, 40, false), Err(ForgeError::TokenTransferFailed));
    assert_eq!(vesting.claimable(1, 40), Ok(40));
    assert_eq!(bank.settle(&mut vesting, 1, 40, true), Ok(40));
    assert_eq!(bank.settle(&mut vesting, 1, 40, true), Ok(0));
    assert_eq!(bank.settle(&mut vesting, 1, 40, false), Ok(0));
    assert_eq!(vesting.claimable(1, 70), Ok(30));
}

#[test]
fn claims_at_any_times_pay_the_total_once() {
    let bank = Bank::new();
    let mut vesting = Vesting::restore(Some(2));
    vesting.put_schedule(1, bank.linear(997, 10, 20, 120));
    vesting.put_tranche_schedule(2, bank.tranches(10, vec![entry(7, 300), entry(90, 697)]));
    for id in [1, 2] {
        let mut paid = 0;
        for (now, transferred) in [
            (0, true),
            (33, true),
            (34, false),
            (60, true),
            (60, true),
            (95, false),
            (129, true),
            (130, false),
            (500, true),
        ] {
            paid += bank.settle(&mut vesting, id, now, transferred).unwrap_or(0);
        }
        assert_eq!(paid, 997);
        assert_eq!(vesting.get_status(id, 500), Ok(VestingStatus::Completed));
        assert_eq!(bank.settle(&mut vesting, id, 600, true), Ok(0));
    }
}

#[test]
fn a_claim_leaves_other_records_alone() {
    let bank = Bank::new();
    let mut vesting = Vesting::restore(Some(2));
    vesting.put_schedule(1, bank.linear(100, 0, 0, 100));
    vesting.put_tranche_schedule(2, bank.tranches(0, vec![entry(10, 5)]));
    assert_eq!(bank.settle(&mut vesting, 2, 50, true), Ok(5));
    assert_eq!(vesting.claimable(1, 50), Ok(50));
    assert_eq!(bank.settle(&mut vesting, 1, 50, true), Ok(50));
    assert_eq!(vesting.get_tranche_schedule(2).unwrap().claimed, 5);
    assert_eq!(vesting.count(), 2);
}

#[test]
fn the_stored_status_is_the_one_at_the_last_claim() {
    let bank = Bank::new();
    let mut vesting = Vesting::new();
    let id = create_table(
        &mut vesting,
        &bank.env,
        &bank.token,
        100,
        vec![entry(10, 5), entry(20, 6)],
    )
    .unwrap();
    assert_eq!(vesting.get_tranche_schedule(id).unwrap().status, VestingStatus::Locked);
    assert_eq!(vesting.get_status(id, 115), Ok(VestingStatus::Vesting));
    assert_eq!(vesting.get_tranche_schedule(id).unwrap().status, VestingStatus::Locked);
    assert_eq!(bank.settle(&mut vesting, id, 115, true), Ok(5));
    assert_eq!(vesting.get_tranche_schedule(id).unwrap().status, VestingStatus::Vesting);
    assert_eq!(bank.settle(&mut vesting, id, 120, true), Ok(6));
    assert_eq!(vesting.get_tranche_schedule(id).unwrap().status, VestingStatus::Completed);
}

#[test]
fn a_claim_is_decided_by_its_record_alone() {
    let bank = Bank::new();
    let schedule = bank.linear(100, 0, 0, 100);
    let mut alone = Vesting::restore(None);
    alone.put_schedule(3, schedule.clone());
    let mut among_others = Vesting::restore(Some(3));
    among_others.put_schedule(1, bank.linear(7, 0, 0, 9));
    among_others.put_tranche_schedule(2, bank.tranches(0, vec![entry(10, 5)]));
    among_others.put_schedule(3, schedule);
    for (now, transferred) in [(30, false), (30, true), (30, true), (100, true)] {
        assert_eq!(
            bank.settle(&mut alone, 3, now, transferred),
            bank.settle(&mut among_others, 3, now, transferred)
        );
        assert_eq!(alone.claimable(3, 100), among_others.claimable(3, 100));
    }
}

#[test]
fn a_schedule_never_goes_back_to_locked() {
    let env = ledger();
    let mut vesting = Vesting::restore(Some(2));
    vesting.put_schedule(1, linear(&env, 100, 10, 5, 20));
    vesting.put_tranche_schedule(2, tranches(&env, 10, vec![entry(5, 3), entry(20, 4)]));
    for id in [1, 2] {
        for now in 0..60 {
            let expected = if now < 15 {
                VestingStatus::Locked
            } else {
                VestingStatus::Vesting
            };
            assert_eq!(vesting.get_status(id, now), Ok(expected));
        }
    }
}

#[test]
fn a_schedule_in_range_is_claimable_at_every_time() {
    let env = ledger();
    let schedule = linear(&env, i128::MAX / 95, u64::MAX - 100, 5, 100);
    for now in u64::MAX - 110..u64::MAX {
        assert!(Vesting::claimable_amount(&schedule, now).is_ok());
    }
    assert_eq!(
        Vesting::claimable_amount(&schedule, u64::MAX),
        Ok(i128::MAX / 95)
    );
}

// --- payments ------------------------------------------------------------

#[test]
fn pay_moves_tokens_and_reports_failures() {
    let bank = Bank::new();
    let beneficiary = Address::generate(&bank.env);
    for (amount, transferred, left) in [
        (0, false, 1_000_000),
        (600_000, true, 400_000),
        (400_001, false, 400_000),
        (400_000, true, 0),
        (-1, false, 0),
    ] {
        assert_eq!(bank.pay(&beneficiary, amount).is_some(), transferred);
        assert_eq!(bank.balance(&bank.contract), left);
        assert_eq!(bank.balance(&beneficiary), 1_000_000 - left);
    }
}

#[test]
fn pay_reports_a_token_that_is_no_contract() {
    let env = ledger();
    let beneficiary = Address::generate(&env);
    let authorization = Authorization {
        by: beneficiary.clone(),
    };
    let contract = Address::generate(&env);
    let issuer = env
        .register_stellar_asset_contract_v2(Address::generate(&env))
        .issuer()
        .address();
    let absent_account = Address::from_str(
        &env,
        "GAAAAAAAAAAAAAAAAAAAAAAAAAAAAAAAAAAAAAAAAAAAAAAAAAAAAWHF",
    );
    let absent_contract = Address::generate(&env);
    let mut till = Till::new(env.clone());
    for token in [issuer, absent_account, absent_contract] {
        let payout = Payout {
            beneficiary: &beneficiary,
            token: &token,
            amount: 1,
        };
        assert!(Vesting::pay(&mut till, &contract, &payout, &authorization).is_none());
    }
}

#[test]
fn a_claim_on_an_account_token_fails_and_keeps_the_record() {
    let env = ledger();
    let mut schedule = linear(&env, 100, 0, 0, 100);
    schedule.token = env
        .register_stellar_asset_contract_v2(Address::generate(&env))
        .issuer()
        .address();
    let beneficiary = schedule.beneficiary.clone();
    let mut vesting = Vesting::restore(Some(1));
    vesting.put_schedule(1, schedule);
    assert_eq!(
        claim(&mut vesting, &env, &beneficiary, 1, 40),
        Err(ForgeError::TokenTransferFailed)
    );
    assert_eq!(vesting.claimable(1, 40), Ok(40));
}

#[test]
fn pay_asks_once_for_a_payout_and_never_for_an_empty_one() {
    let env = ledger();
    for accepts in [true, false] {
        let (token, asked) = counting_token(&env, accepts);
        let beneficiary = Address::generate(&env);
        let contract = Address::generate(&env);
        let authorization = Authorization {
            by: beneficiary.clone(),
        };
        let mut till = Till::new(env.clone());
        for (amount, expected) in [(0, 0), (7, 1), (0, 1), (8, 2)] {
            let payout = Payout {
                beneficiary: &beneficiary,
                token: &token,
                amount,
            };
            let receipt = Vesting::pay(&mut till, &contract, &payout, &authorization);
            assert_eq!(receipt.is_some(), accepts && amount != 0);
            assert_eq!(asked.get(), expected);
        }
    }
}

#[test]
fn a_claim_asks_for_a_transfer_only_where_a_payout_is_due() {
    let env = ledger();
    let (token, asked) = counting_token(&env, true);
    let mut schedule = linear(&env, 100, 0, 10, 110);
    schedule.token = token.clone();
    let mut huge = linear(&env, i128::MAX, 0, 0, 100);
    huge.token = token;
    let beneficiary = schedule.beneficiary.clone();
    let huge_beneficiary = huge.beneficiary.clone();
    let mut vesting = Vesting::restore(Some(2));
    vesting.put_schedule(1, schedule);
    vesting.put_schedule(2, huge);
    // Unknown id, nothing vested yet, and a share out of range.
    assert_eq!(
        claim(&mut vesting, &env, &beneficiary, 3, 50),
        Err(ForgeError::NotFound)
    );
    assert_eq!(claim(&mut vesting, &env, &beneficiary, 1, 9), Ok(0));
    assert_eq!(
        claim(&mut vesting, &env, &huge_beneficiary, 2, 50),
        Err(ForgeError::ArithmeticOverflow)
    );
    assert_eq!(asked.get(), 0);
    // A payout, and the same claim again.
    assert_eq!(claim(&mut vesting, &env, &beneficiary, 1, 50), Ok(40));
    assert_eq!(asked.get(), 1);
    assert_eq!(claim(&mut vesting, &env, &beneficiary, 1, 50), Ok(0));
    assert_eq!(asked.get(), 1);
    // More claimed than has vested.
    assert_eq!(
        claim(&mut vesting, &env, &beneficiary, 1, 40),
        Err(ForgeError::ArithmeticOverflow)
    );
    assert_eq!(asked.get(), 1);
}

#[test]
fn a_refused_transfer_is_asked_for_once_and_keeps_the_record() {
    let env = ledger();
    let (token, asked) = counting_token(&env, false);
    let mut schedule = tranches(&env, 0, vec![entry(10, 5)]);
    schedule.token = token;
    let beneficiary = schedule.beneficiary.clone();
    let mut vesting = Vesting::restore(Some(1));
    vesting.put_tranche_schedule(1, schedule);
    assert_eq!(
        claim(&mut vesting, &env, &beneficiary, 1, 10),
        Err(ForgeError::TokenTransferFailed)
    );
    assert_eq!(asked.get(), 1);
    assert_eq!(vesting.get_tranche_schedule(1).unwrap().claimed, 0);
    assert_eq!(vesting.claimable(1, 10), Ok(5));
}

#[test]
fn balances_follow_the_claimed_amount() {
    let bank = Bank::new();
    let schedule = bank.linear(997, 10, 20, 120);
    let beneficiary = schedule.beneficiary.clone();
    let mut vesting = Vesting::restore(Some(1));
    vesting.put_schedule(1, schedule);
    let mut paid = 0;
    for (now, transferred) in [(0, true), (33, true), (33, true), (50, false), (40, true), (130, true)] {
        paid += bank.settle(&mut vesting, 1, now, transferred).unwrap_or(0);
        assert_eq!(bank.balance(&beneficiary), paid);
        assert_eq!(bank.balance(&bank.contract), 1_000_000 - paid);
        match vesting.load(1) {
            Ok(StoredRef::Linear(record)) => assert_eq!(record.claimed, paid),
            _ => panic!("the record is gone"),
        }
    }
    assert_eq!(paid, 997);
}

#[test]
fn interleaved_claims_conserve_each_record_and_the_balance() {
    let bank = Bank::new();
    let mut vesting = Vesting::new();
    let mut paid = [0, 0, 0, 0];
    let mut beneficiaries = Vec::new();
    for now in 0..60 {
        match now {
            0 | 20 => {
                let beneficiary = Address::generate(&bank.env);
                let authorization = Authorization {
                    by: beneficiary.clone(),
                };
                let id = vesting.create_schedule(
                    now,
                    beneficiary.clone(),
                    bank.token.clone(),
                    997,
                    3,
                    30,
                    &authorization,
                );
                assert!(id.is_ok());
                beneficiaries.push(beneficiary);
            }
            10 => {
                let table = vec![entry(0, 5), entry(25, 6)];
                let id = create_table(&mut vesting, &bank.env, &bank.token, now, table);
                let owed = vesting.payout(id.unwrap(), now).unwrap();
                beneficiaries.push(owed.beneficiary.clone());
            }
            30 => {
                let refused = create_table(&mut vesting, &bank.env, &bank.token, now, vec![]);
                assert_eq!(refused, Err(ForgeError::InvalidInput));
            }
            _ => {}
        }
        // Claims on stored and unknown ids take turns, and some go unpaid.
        let id = now % 4 + 1;
        let transferred = now % 5 != 0;
        let r = bank.settle(&mut vesting, id, now, transferred);
        paid[now as usize % 4] += r.unwrap_or(0);
        assert_eq!(bank.balance(&bank.contract), 1_000_000 - paid.iter().sum::<i128>());
        for (i, beneficiary) in beneficiaries.iter().enumerate() {
            let claimed = match vesting.load(i as u64 + 1) {
                Ok(StoredRef::Linear(schedule)) => schedule.claimed,
                Ok(StoredRef::Tranche(schedule)) => schedule.claimed,
                Err(_) => panic!("id {} holds no record", i + 1),
            };
            assert_eq!(claimed, paid[i]);
            assert_eq!(bank.balance(beneficiary), paid[i]);
        }
    }
    assert_eq!(paid, [997, 11, 997, 0]);
}

#[test]
fn a_clock_that_runs_backwards_fails_loudly() {
    let bank = Bank::new();
    let mut vesting = Vesting::restore(Some(2));
    vesting.put_schedule(1, bank.linear(100, 0, 0, 100));
    vesting.put_tranche_schedule(2, bank.tranches(0, vec![entry(10, 5), entry(50, 6)]));
    for (id, paid) in [(1, 60), (2, 11)] {
        assert_eq!(bank.settle(&mut vesting, id, 60, true), Ok(paid));
        assert_eq!(vesting.claimable(id, 40), Err(ForgeError::ArithmeticOverflow));
        assert_eq!(
            bank.settle(&mut vesting, id, 40, true),
            Err(ForgeError::ArithmeticOverflow)
        );
        assert_eq!(vesting.claimable(id, 60), Ok(0));
    }
}
