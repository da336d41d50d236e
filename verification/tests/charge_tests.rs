use wasm_metering::charge::{ChargeOutcome, GasCounters, RunReport, charge, run_blocks};

#[test]
fn charge_decrements_both_counters() {
    let mut c = GasCounters { gas: 100, allowance: 50 };
    let r = charge(&mut c, 7, 3);
    assert_eq!(r, ChargeOutcome::Charged);
    assert_eq!(c, GasCounters { gas: 90, allowance: 40 });
}

#[test]
fn charge_out_of_gas_changes_nothing() {
    let mut c = GasCounters { gas: 4, allowance: 100 };
    let r = charge(&mut c, 5, 0);
    assert_eq!(r, ChargeOutcome::OutOfGas);
    assert_eq!(c, GasCounters { gas: 4, allowance: 100 });
}

#[test]
fn charge_out_of_allowance_after_gas_decrement() {
    // Gas is checked and decremented first; the failed allowance check
    // leaves the allowance counter untouched.
    let mut c = GasCounters { gas: 100, allowance: 4 };
    let r = charge(&mut c, 5, 0);
    assert_eq!(r, ChargeOutcome::OutOfAllowance);
    assert_eq!(c, GasCounters { gas: 95, allowance: 4 });
}

#[test]
fn run_decrements_gas_by_sum_of_executed_blocks() {
    let mut c = GasCounters { gas: 100, allowance: 100 };
    let costs: Vec<u32> = vec![3, 4, 5];
    let r = run_blocks(&mut c, &costs, 1);
    assert_eq!(r, RunReport { executed: 3, outcome: ChargeOutcome::Charged });
    // (3+1) + (4+1) + (5+1) = 15
    assert_eq!(c, GasCounters { gas: 85, allowance: 85 });
}

#[test]
fn run_traps_exactly_when_next_block_overdraws() {
    // Blocks cost 4 each; gas 11 covers two blocks (8) but not the third.
    let mut c = GasCounters { gas: 11, allowance: 100 };
    let costs: Vec<u32> = vec![4, 4, 4];
    let r = run_blocks(&mut c, &costs, 0);
    assert_eq!(r, RunReport { executed: 2, outcome: ChargeOutcome::OutOfGas });
    // The failed check did not decrement: 11 - 8 = 3 remains.
    assert_eq!(c, GasCounters { gas: 3, allowance: 92 });
}

#[test]
fn run_with_exact_gas_reaches_zero() {
    let mut c = GasCounters { gas: 5, allowance: 100 };
    let costs: Vec<u32> = vec![5];
    let r = run_blocks(&mut c, &costs, 0);
    assert_eq!(r, RunReport { executed: 1, outcome: ChargeOutcome::Charged });
    assert_eq!(c.gas, 0);
}

#[test]
fn run_with_insufficient_gas_leaves_counter_unchanged() {
    let mut c = GasCounters { gas: 4, allowance: 100 };
    let costs: Vec<u32> = vec![5];
    let r = run_blocks(&mut c, &costs, 0);
    assert_eq!(r, RunReport { executed: 0, outcome: ChargeOutcome::OutOfGas });
    assert_eq!(c.gas, 4);
}

#[test]
fn allowance_trap_is_final_no_later_block_runs() {
    // Allowance covers only the first block; the second traps, the third
    // never executes and the counters stay at the trap state.
    let mut c = GasCounters { gas: 100, allowance: 5 };
    let costs: Vec<u32> = vec![4, 4, 4];
    let r = run_blocks(&mut c, &costs, 0);
    assert_eq!(r, RunReport { executed: 1, outcome: ChargeOutcome::OutOfAllowance });
    // First block charged both; second decremented gas then trapped.
    assert_eq!(c, GasCounters { gas: 92, allowance: 1 });

    // Appending more blocks after the trap changes nothing.
    let mut c2 = GasCounters { gas: 100, allowance: 5 };
    let costs2: Vec<u32> = vec![4, 4, 4, 9, 9];
    let r2 = run_blocks(&mut c2, &costs2, 0);
    assert_eq!(r2, RunReport { executed: 1, outcome: ChargeOutcome::OutOfAllowance });
    assert_eq!(c2, c);
}
