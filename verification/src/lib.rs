//! A token-vesting contract that releases a beneficiary's tokens over time.
//!
//! Two schedule shapes share one id space and one claim path:
//!
//! - **linear** ([`VestingSchedule`]): an optional cliff followed by a
//!   straight-line ramp to `duration`;
//! - **tranche** ([`TrancheSchedule`]): an explicit, ordered table of discrete
//!   unlocks.
//!
//! Timings in both shapes are seconds measured from the schedule start, the
//! ledger timestamp recorded at creation.
//!
//! The vested amount of a linear schedule at ledger time `t` is `0` when
//! `t < start + cliff`, the total when `t >= start + duration`, and otherwise
//! `total * (t - (start + cliff)) / (duration - cliff)`, rounded down. That of
//! a tranche schedule is the sum of every tranche whose offset has elapsed:
//! nothing accrues between unlocks, nor before the start.
//!
//! A claim pays what has vested since the last one. The transfer runs before
//! the record is written, so a refused transfer leaves every entry untouched,
//! and a claim of zero issues no transfer at all. A record with more claimed
//! than has vested is an arithmetic error. Every transfer goes through a
//! [`Till`], whose log shows what was asked for and what went through.
//!
//! [`contract`] holds the operations, [`entries`] the model that their
//! contracts speak of, [`guarantees`] what that model comes to in terms of the
//! records' fields, and [`laws`] what holds of the contract as a whole.

pub mod contract;
pub mod entries;
pub mod error;
pub mod guarantees;
pub mod host;
pub mod laws;
pub mod linear;
pub mod payment;
pub mod status;
pub mod till;
pub mod tranche;

pub use contract::Vesting;
pub use error::ForgeError;
pub use linear::VestingSchedule;
pub use payment::{Authorization, Payout};
pub use status::VestingStatus;
pub use till::{Answer, Asked, Receipt, Till, Transfer};
pub use tranche::{Tranche, TrancheSchedule, MAX_TRANCHES};
