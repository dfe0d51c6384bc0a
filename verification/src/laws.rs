//! The accounting laws of the accrual model, proved once and for all
//! citizens, clock values and ledger states.

use vstd::prelude::*;

use crate::citizen::Citizen;
use crate::citizen::COCONUT_MATURATION_BLOCKS;
use crate::ledger::brown_balance_outcome;
use crate::ledger::young_balance_outcome;
use crate::ledger::Coconuts;

verus! {

/// At its creation time, a freshly created citizen has a young balance of 0
/// and a brown balance of 0.
pub proof fn law_new_citizen_balances_zero(now: u64)
    ensures
        Citizen::spec_new(now).spec_young(now) == 0,
        Citizen::spec_new(now).spec_brown(now) == 0,
{
}

/// At any clock value at or after creation, the young and brown balances
/// partition the baseline: nothing is double counted and nothing is lost.
pub proof fn law_balances_partition_baseline(c: Citizen, now: u64)
    requires
        now >= c.init_block_index,
    ensures
        c.spec_young(now) + c.spec_brown(now) == c.spec_baseline(now),
{
}

/// The brown balance never decreases as the clock advances.
pub proof fn law_brown_nondecreasing(c: Citizen, t1: u64, t2: u64)
    requires
        c.init_block_index <= t1 <= t2,
    ensures
        c.spec_brown(t1) <= c.spec_brown(t2),
{
    assert((t1 - c.init_block_index) * c.coconut_tree_count <= (t2 - c.init_block_index)
        * c.coconut_tree_count) by (nonlinear_arith)
        requires
            0 <= t1 - c.init_block_index <= t2 - c.init_block_index,
            c.coconut_tree_count >= 0,
    ;
}

/// The brown balance is positive exactly when the baseline exceeds the
/// maturation window.
pub proof fn law_brown_positive_after_window(c: Citizen, now: u64)
    requires
        now >= c.init_block_index,
    ensures
        c.spec_brown(now) > 0 <==> c.spec_baseline(now) > COCONUT_MATURATION_BLOCKS,
{
}

/// For a registered citizen whose baseline is representable, the young and
/// brown balances the queries report both succeed and sum exactly to the
/// baseline: nothing is double counted and nothing is lost.
pub proof fn law_reported_balances_partition_baseline(s: Coconuts, k: Seq<char>, now: u64)
    requires
        s.wf(),
        s.clock_ok(now),
        s.registered(k),
        s.citizen_for(k).spec_baseline(now) <= u128::MAX,
    ensures
        young_balance_outcome(s, k, now) is Ok,
        brown_balance_outcome(s, k, now) is Ok,
        young_balance_outcome(s, k, now)->Ok_0 + brown_balance_outcome(s, k, now)->Ok_0 == s
            .citizen_for(k).spec_baseline(now),
{
    s.lemma_registered_citizen_facts(k, now);
    let c = s.citizen_for(k);
    assert((now - c.init_block_index) * c.coconut_tree_count >= 0) by (nonlinear_arith)
        requires
            now - c.init_block_index >= 0,
            c.coconut_tree_count >= 1,
    ;
}

/// At the query level: for a registered citizen whose baseline is still
/// representable at the later of two clock values, both brown-balance
/// queries succeed and the later one reports at least as much as the
/// earlier one.
pub proof fn law_reported_brown_nondecreasing(s: Coconuts, k: Seq<char>, t1: u64, t2: u64)
    requires
        s.wf(),
        s.clock_ok(t1),
        t1 <= t2,
        s.registered(k),
        s.citizen_for(k).spec_baseline(t2) <= u128::MAX,
    ensures
        brown_balance_outcome(s, k, t1) is Ok,
        brown_balance_outcome(s, k, t2) is Ok,
        brown_balance_outcome(s, k, t1)->Ok_0 <= brown_balance_outcome(s, k, t2)->Ok_0,
{
    s.lemma_registered_citizen_facts(k, t1);
    let c = s.citizen_for(k);
    assert((t1 - c.init_block_index) * c.coconut_tree_count >= 0) by (nonlinear_arith)
        requires
            t1 - c.init_block_index >= 0,
            c.coconut_tree_count >= 1,
    ;
    law_brown_nondecreasing(c, t1, t2);
    assert(c.spec_baseline(t1) <= c.spec_baseline(t2)) by (nonlinear_arith)
        requires
            0 <= t1 - c.init_block_index <= t2 - c.init_block_index,
            c.coconut_tree_count >= 0,
    ;
}

/// A key's resolution is a function of the registry table alone, so any
/// operation whose contract leaves the registry untouched — a transfer, or
/// an overwrite of a stored record — leaves every registered id in place.
/// Together with the registration contract, which maps the new key to the
/// returned id and keeps every other key's resolution, a registered key
/// resolves to the same citizen id on every subsequent call.
pub proof fn law_resolution_stable(s1: Coconuts, s2: Coconuts, k: Seq<char>)
    requires
        s1.accounts_seq() == s2.accounts_seq(),
    ensures
        s1.id_of(k) == s2.id_of(k),
{
}

} // verus!
