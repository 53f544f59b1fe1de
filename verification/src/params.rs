//! What a replica is configured with: its address and the durations of the phases.

use vstd::prelude::*;
use crate::types::Address;

verus! {

/// The block interval that a fresh timer starts with, in milliseconds.
pub const DEFAULT_TOTAL_DURATION: u64 = 3000;

/// The share of the block interval that each phase gets, in thirtieths.
pub const PROPOSE_SHARE: u64 = 24;
pub const PREVOTE_SHARE: u64 = 1;
pub const PRECOMMIT_SHARE: u64 = 1;
pub const COMMIT_SHARE: u64 = 4;
pub const SHARE_TOTAL: u64 = 30;

/// The given share of an interval, rounded down.
pub open spec fn share_of(total: u64, share: u64) -> int {
    (total * share) / (SHARE_TOTAL as int)
}

/// The base durations of the phases, all derived from one block interval.
#[derive(Clone, Copy, Debug, PartialEq, Eq)]
pub struct BftTimer {
    pub total_duration: u64,
}

impl BftTimer {
    fn share(&self, share: u64) -> (d: u64)
        requires
            share <= SHARE_TOTAL,
        ensures
            d == share_of(self.total_duration, share),
    {
        assert(self.total_duration * share <= 0xffff_ffff_ffff_ffff * 30) by (nonlinear_arith)
            requires
                self.total_duration <= 0xffff_ffff_ffff_ffff,
                share <= 30,
        ;
        let wide: u128 = (self.total_duration as u128) * (share as u128);
        assert(wide <= self.total_duration * 30) by (nonlinear_arith)
            requires
                wide == self.total_duration * share,
                share <= 30,
        ;
        let quotient: u128 = wide / 30;
        assert(quotient <= self.total_duration);
        assert(quotient == share_of(self.total_duration, share));
        quotient as u64
    }

    /// Replaces the block interval, from which every phase duration follows.
    pub fn set_total_duration(&mut self, duration: u64)
        ensures
            final(self).total_duration == duration,
    {
        self.total_duration = duration;
    }

    /// The base duration of the propose phase, in milliseconds.
    pub fn get_propose(&self) -> (d: u64)
        ensures
            d == share_of(self.total_duration, PROPOSE_SHARE),
    {
        self.share(PROPOSE_SHARE)
    }

    /// The base duration of the prevote phase, in milliseconds.
    pub fn get_prevote(&self) -> (d: u64)
        ensures
            d == share_of(self.total_duration, PREVOTE_SHARE),
    {
        self.share(PREVOTE_SHARE)
    }

    /// The base duration of the precommit phase, in milliseconds.
    pub fn get_precommit(&self) -> (d: u64)
        ensures
            d == share_of(self.total_duration, PRECOMMIT_SHARE),
    {
        self.share(PRECOMMIT_SHARE)
    }

    /// The base duration of the commit phase, in milliseconds.
    pub fn get_commit(&self) -> (d: u64)
        ensures
            d == share_of(self.total_duration, COMMIT_SHARE),
    {
        self.share(COMMIT_SHARE)
    }
}

impl Default for BftTimer {
    fn default() -> (t: Self)
        ensures
            t.total_duration == DEFAULT_TOTAL_DURATION,
    {
        BftTimer { total_duration: DEFAULT_TOTAL_DURATION }
    }
}

/// What a replica is configured with: its timer and its own address.
#[derive(Debug)]
pub struct BftParams {
    pub timer: BftTimer,
    pub address: Address,
}

impl BftParams {
    /// The parameters of the replica `address`, with the default timer.
    pub fn new(address: Address) -> (p: Self)
        ensures
            p.address@ == address@,
            p.timer.total_duration == DEFAULT_TOTAL_DURATION,
    {
        BftParams { timer: BftTimer { total_duration: DEFAULT_TOTAL_DURATION }, address }
    }
}

} // verus!
