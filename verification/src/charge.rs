//! Accounting semantics of the synthesized charging routine.
//!
//! An instrumented module calls the charging routine once at the head of
//! every metered block, handing it the block's statically computed cost.
//! The routine adds the precomputed per-call overhead, checks and decrements
//! the gas counter, then checks and decrements the allowance counter; either
//! check may abort the execution, gas first.

use vstd::prelude::*;

verus! {

/// The two 64-bit counters an instrumented module exports; both are
/// monotonically non-increasing during one execution and are never
/// observed negative: a trap fires at the transition that would make one
/// negative, before the write happens.
#[derive(Clone, Copy, Debug, PartialEq, Eq, Structural)]
pub struct GasCounters {
    pub gas: u64,
    pub allowance: u64,
}

/// Outcome of charging one metered block.
#[derive(Clone, Copy, Debug, PartialEq, Eq, Structural)]
pub enum ChargeOutcome {
    /// Both counters covered the charge and were decremented.
    Charged,
    /// The gas counter could not cover the charge; neither counter changed.
    OutOfGas,
    /// The allowance counter could not cover the charge after gas was
    /// decremented; the allowance counter did not change.
    OutOfAllowance,
}

/// Total charge for one block: the block's static cost plus the charging
/// routine's own precomputed overhead. Injection guarantees the overhead
/// never exceeds `u64::MAX - u32::MAX`, so the sum fits in 64 bits.
pub open spec fn spec_total(block_cost: u32, overhead: u64) -> u64 {
    (block_cost + overhead) as u64
}

/// One charging step: check gas, decrement gas, check allowance, decrement
/// allowance; a failed check stops before its decrement.
pub open spec fn spec_charge(c: GasCounters, total: u64) -> (GasCounters, ChargeOutcome) {
    if c.gas < total {
        (c, ChargeOutcome::OutOfGas)
    } else if c.allowance < total {
        (GasCounters { gas: (c.gas - total) as u64, allowance: c.allowance }, ChargeOutcome::OutOfAllowance)
    } else {
        (
            GasCounters { gas: (c.gas - total) as u64, allowance: (c.allowance - total) as u64 },
            ChargeOutcome::Charged,
        )
    }
}

/// Running a sequence of metered blocks: counters after the run, the number
/// of blocks whose body executed, and the outcome. A block whose charge
/// fails does not execute, and nothing runs after it.
pub open spec fn spec_run(c: GasCounters, costs: Seq<u32>, overhead: u64) -> (GasCounters, int, ChargeOutcome)
    decreases costs.len(),
{
    if costs.len() == 0 {
        (c, 0, ChargeOutcome::Charged)
    } else {
        let step = spec_charge(c, spec_total(costs[0], overhead));
        if !(step.1 is Charged) {
            (step.0, 0, step.1)
        } else {
            let rest = spec_run(step.0, costs.drop_first(), overhead);
            (rest.0, rest.1 + 1, rest.2)
        }
    }
}

/// Sum of the total charges of the first `k` blocks.
pub open spec fn spec_prefix_total(costs: Seq<u32>, overhead: u64, k: int) -> int
    decreases k,
{
    if k <= 0 || costs.len() == 0 {
        0
    } else {
        spec_total(costs[0], overhead) + spec_prefix_total(costs.drop_first(), overhead, k - 1)
    }
}

/// Charge one metered block of cost `block_cost` against the counters.
pub fn charge(c: &mut GasCounters, block_cost: u32, overhead: u64) -> (r: ChargeOutcome)
    requires
        overhead <= u64::MAX - u32::MAX,
    ensures
        *final(c) == spec_charge(*old(c), spec_total(block_cost, overhead)).0,
        r == spec_charge(*old(c), spec_total(block_cost, overhead)).1,
{
    let total: u64 = block_cost as u64 + overhead;
    if c.gas < total {
        ChargeOutcome::OutOfGas
    } else {
        c.gas = c.gas - total;
        if c.allowance < total {
            ChargeOutcome::OutOfAllowance
        } else {
            c.allowance = c.allowance - total;
            ChargeOutcome::Charged
        }
    }
}

/// Report of one bounded run over a sequence of metered blocks.
#[derive(Clone, Copy, Debug, PartialEq, Eq, Structural)]
pub struct RunReport {
    /// How many blocks executed; a block whose charge trapped is not counted.
    pub executed: usize,
    /// `Charged` when every block ran, else the trap that ended the run.
    pub outcome: ChargeOutcome,
}

/// Run blocks of the given static costs in order, charging each before it
/// executes, until every block ran or a charge traps.
pub fn run_blocks(c: &mut GasCounters, costs: &Vec<u32>, overhead: u64) -> (r: RunReport)
    requires
        overhead <= u64::MAX - u32::MAX,
    ensures
        *final(c) == spec_run(*old(c), costs@, overhead).0,
        r.executed as int == spec_run(*old(c), costs@, overhead).1,
        r.outcome == spec_run(*old(c), costs@, overhead).2,
{
    let ghost full = spec_run(*old(c), costs@, overhead);
    proof {
        assert(costs@.subrange(0, costs@.len() as int) =~= costs@);
    }
    let mut i: usize = 0;
    while i < costs.len()
        invariant
            overhead <= u64::MAX - u32::MAX,
            i <= costs.len(),
            full == spec_run(*old(c), costs@, overhead),
            spec_run(*c, costs@.subrange(i as int, costs@.len() as int), overhead).0 == full.0,
            spec_run(*c, costs@.subrange(i as int, costs@.len() as int), overhead).1 + i == full.1,
            spec_run(*c, costs@.subrange(i as int, costs@.len() as int), overhead).2 == full.2,
        decreases costs.len() - i,
    {
        let ghost tail = costs@.subrange(i as int, costs@.len() as int);
        let o = charge(c, costs[i], overhead);
        proof {
            assert(tail[0] == costs@[i as int]);
            assert(tail.drop_first() =~= costs@.subrange(i as int + 1, costs@.len() as int));
        }
        if o != ChargeOutcome::Charged {
            return RunReport { executed: i, outcome: o };
        }
        i = i + 1;
    }
    proof {
        assert(costs@.subrange(costs@.len() as int, costs@.len() as int).len() == 0);
    }
    RunReport { executed: i, outcome: ChargeOutcome::Charged }
}

/// Running with initial counters decrements gas by exactly the sum of the
/// total charges of the blocks that executed, and a trap occurs exactly when
/// the next block's charge would drive a counter negative — the decrement
/// never happens before the check. Allowance is decremented by the same sum;
/// an out-of-allowance trap leaves allowance unchanged though gas was
/// already decremented for the failing block, as the routine checks gas
/// first.
pub proof fn lemma_run_charges_exactly(c: GasCounters, costs: Seq<u32>, overhead: u64)
    requires
        overhead <= u64::MAX - u32::MAX,
    ensures
        0 <= spec_run(c, costs, overhead).1 <= costs.len(),
        spec_run(c, costs, overhead).2 is Charged <==> spec_run(c, costs, overhead).1 == costs.len(),
        spec_prefix_total(costs, overhead, spec_run(c, costs, overhead).1) <= c.gas,
        spec_run(c, costs, overhead).0.allowance == c.allowance - spec_prefix_total(
            costs,
            overhead,
            spec_run(c, costs, overhead).1,
        ),
        spec_run(c, costs, overhead).0.gas == c.gas - spec_prefix_total(
            costs,
            overhead,
            spec_run(c, costs, overhead).1,
        ) - (if spec_run(c, costs, overhead).2 is OutOfAllowance {
            spec_total(costs[spec_run(c, costs, overhead).1], overhead) as int
        } else {
            0
        }),
        spec_run(c, costs, overhead).2 is OutOfGas ==> c.gas - spec_prefix_total(
            costs,
            overhead,
            spec_run(c, costs, overhead).1,
        ) < spec_total(costs[spec_run(c, costs, overhead).1], overhead),
        spec_run(c, costs, overhead).2 is OutOfAllowance ==> c.allowance - spec_prefix_total(
            costs,
            overhead,
            spec_run(c, costs, overhead).1,
        ) < spec_total(costs[spec_run(c, costs, overhead).1], overhead),
    decreases costs.len(),
{
    if costs.len() == 0 {
    } else {
        let step = spec_charge(c, spec_total(costs[0], overhead));
        if step.1 is Charged {
            lemma_run_charges_exactly(step.0, costs.drop_first(), overhead);
        }
    }
}

/// Once a charge traps, the trap is the last observable step: blocks that
/// would come after the failing one never execute and never change the
/// counters, whatever they are.
pub proof fn lemma_trap_is_final(c: GasCounters, costs: Seq<u32>, more: Seq<u32>, overhead: u64)
    requires
        !(spec_run(c, costs, overhead).2 is Charged),
    ensures
        spec_run(c, costs + more, overhead) == spec_run(c, costs, overhead),
    decreases costs.len(),
{
    assert(costs.len() > 0);
    assert((costs + more)[0] == costs[0]);
    let step = spec_charge(c, spec_total(costs[0], overhead));
    if step.1 is Charged {
        assert((costs + more).drop_first() =~= costs.drop_first() + more);
        lemma_trap_is_final(step.0, costs.drop_first(), more, overhead);
    }
}

} // verus!
