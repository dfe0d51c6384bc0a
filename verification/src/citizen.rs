//! The accrual engine: a citizen's record and the pure balance functions
//! over it.
//!
//! A citizen accrues `COCONUTS_PER_BLOCK` coconuts per tree per clock tick
//! since its creation; the most recent `COCONUT_MATURATION_BLOCKS` worth of
//! accrual is "young", the rest has matured into "brown".  Balances are
//! recomputed from scratch on every query from `init_block_index`,
//! `coconut_tree_count` and the clock alone; the transfer counters in
//! `Adjustments` are an audit trail and do not feed back into the displayed
//! balances.

use vstd::prelude::*;

use crate::errors::CoconutError;

verus! {

/// Coconuts granted at creation, before any accrual.
pub const INITIAL_COCONUTS: u128 = 0;

/// Young coconuts generated each block, per tree.
pub const COCONUTS_PER_BLOCK: u128 = 1;

/// Blocks until a young coconut becomes a brown coconut.
pub const COCONUT_MATURATION_BLOCKS: u128 = 10;

/// Cumulative transfer volume out of and into a citizen's young tranche.
/// Both counters start at zero and only ever grow.
#[derive(Clone, Copy, Debug, Default, PartialEq, Eq, Structural)]
pub struct Adjustments {
    pub sent: u128,
    pub received: u128,
}

/// One citizen's accrual state: fixed creation time and accrual rate, plus
/// the audit counters of the transfers it took part in.
#[derive(Clone, Copy, Debug, PartialEq, Eq, Structural)]
pub struct Citizen {
    /// The clock value at creation; fixed for the citizen's lifetime.
    pub init_block_index: u64,
    /// Positive multiplier on the accrual rate; fixed at 1 for every
    /// citizen created through the exposed operations.
    pub coconut_tree_count: u128,
    /// Cumulative transfer volume, updated only by the transfer operation.
    pub young_coconut_adjustments: Adjustments,
}

impl Citizen {
    /// A structurally valid record: the accrual multiplier is positive.
    pub open spec fn wf(self) -> bool {
        self.coconut_tree_count >= 1
    }

    /// The record a fresh citizen is created with at clock value `now`.
    pub open spec fn spec_new(now: u64) -> Citizen {
        Citizen {
            init_block_index: now,
            coconut_tree_count: 1,
            young_coconut_adjustments: Adjustments { sent: 0, received: 0 },
        }
    }

    /// Total coconuts accrued by clock value `now`, before the young/brown
    /// split, as an unbounded integer.
    pub open spec fn spec_baseline(self, now: u64) -> int {
        INITIAL_COCONUTS + (now - self.init_block_index) * self.coconut_tree_count
            * COCONUTS_PER_BLOCK
    }

    /// The matured portion of the baseline: everything accrued longer than
    /// `COCONUT_MATURATION_BLOCKS` ago.
    pub open spec fn spec_brown(self, now: u64) -> int {
        if self.spec_baseline(now) > COCONUT_MATURATION_BLOCKS {
            (self.spec_baseline(now) - COCONUT_MATURATION_BLOCKS) * COCONUTS_PER_BLOCK
        } else {
            0
        }
    }

    /// The still-maturing portion of the baseline: whatever is not brown.
    pub open spec fn spec_young(self, now: u64) -> int {
        self.spec_baseline(now) - self.spec_brown(now)
    }

    /// The record after the outgoing side of a transfer of `qty` young
    /// coconuts; meaningful only when the sum stays in the 128-bit range.
    pub open spec fn with_sent_added(self, qty: u128) -> Citizen {
        Citizen {
            young_coconut_adjustments: Adjustments {
                sent: (self.young_coconut_adjustments.sent + qty) as u128,
                received: self.young_coconut_adjustments.received,
            },
            ..self
        }
    }

    /// The record after the incoming side of a transfer of `qty` young
    /// coconuts; meaningful only when the sum stays in the 128-bit range.
    pub open spec fn with_received_added(self, qty: u128) -> Citizen {
        Citizen {
            young_coconut_adjustments: Adjustments {
                sent: self.young_coconut_adjustments.sent,
                received: (self.young_coconut_adjustments.received + qty) as u128,
            },
            ..self
        }
    }

    /// Create the record of a citizen registered at clock value `now`:
    /// one tree, zeroed transfer counters.
    pub fn new(now: u64) -> (c: Citizen)
        ensures
            c == Citizen::spec_new(now),
            c.wf(),
    {
        Citizen {
            init_block_index: now,
            coconut_tree_count: 1,
            young_coconut_adjustments: Adjustments { sent: 0, received: 0 },
        }
    }

    /// Total coconuts accrued by clock value `now`.  Fails with
    /// `ArithmeticOverflow` exactly when the mathematical baseline does not
    /// fit in 128 bits; it is never silently wrapped.
    pub fn baseline_coconuts(&self, now: u64) -> (r: Result<u128, CoconutError>)
        requires
            now >= self.init_block_index,
        ensures
            r is Ok <==> self.spec_baseline(now) <= u128::MAX,
            r matches Ok(v) ==> v == self.spec_baseline(now),
            r matches Err(e) ==> e == CoconutError::ArithmeticOverflow,
    {
        let diff_block_index: u64 = now - self.init_block_index;
        let diff_block_index: u128 = diff_block_index as u128;
        let with_trees: u128 = match diff_block_index.checked_mul(self.coconut_tree_count) {
            Some(v) => v,
            None => {
                return Err(CoconutError::ArithmeticOverflow);
            },
        };
        let coconuts_since_init: u128 = match with_trees.checked_mul(COCONUTS_PER_BLOCK) {
            Some(v) => v,
            None => {
                return Err(CoconutError::ArithmeticOverflow);
            },
        };
        match INITIAL_COCONUTS.checked_add(coconuts_since_init) {
            Some(v) => Ok(v),
            None => Err(CoconutError::ArithmeticOverflow),
        }
    }

    /// The matured balance at clock value `now`.  Fails with
    /// `ArithmeticOverflow` exactly when the baseline itself overflows;
    /// brown never exceeds the baseline, so the split adds no overflow of
    /// its own.
    pub fn brown_coconut_balance(&self, now: u64) -> (r: Result<u128, CoconutError>)
        requires
            now >= self.init_block_index,
        ensures
            r is Ok <==> self.spec_baseline(now) <= u128::MAX,
            r matches Ok(v) ==> v == self.spec_brown(now),
            r matches Err(e) ==> e == CoconutError::ArithmeticOverflow,
    {
        let baseline_coconuts: u128 = match self.baseline_coconuts(now) {
            Ok(v) => v,
            Err(e) => {
                return Err(e);
            },
        };
        let aged: u128 = if baseline_coconuts > COCONUT_MATURATION_BLOCKS {
            baseline_coconuts - COCONUT_MATURATION_BLOCKS
        } else {
            0
        };
        match aged.checked_mul(COCONUTS_PER_BLOCK) {
            Some(v) => Ok(v),
            None => Err(CoconutError::ArithmeticOverflow),
        }
    }

    /// The still-young balance at clock value `now`: baseline minus brown.
    /// Fails with `ArithmeticOverflow` exactly when the baseline overflows.
    pub fn young_coconut_balance(&self, now: u64) -> (r: Result<u128, CoconutError>)
        requires
            now >= self.init_block_index,
        ensures
            r is Ok <==> self.spec_baseline(now) <= u128::MAX,
            r matches Ok(v) ==> v == self.spec_young(now),
            r matches Err(e) ==> e == CoconutError::ArithmeticOverflow,
    {
        let baseline_coconuts: u128 = match self.baseline_coconuts(now) {
            Ok(v) => v,
            Err(e) => {
                return Err(e);
            },
        };
        let brown: u128 = match self.brown_coconut_balance(now) {
            Ok(v) => v,
            Err(e) => {
                return Err(e);
            },
        };
        Ok(baseline_coconuts - brown)
    }
}

} // verus!
