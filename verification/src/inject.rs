//! The instrumentation pass: rewrites a module into an equivalent module
//! that additionally imports two trap functions (out-of-gas and
//! out-of-allowance), exports two mutable 64-bit counter globals, and calls
//! a synthesized charging routine at the head of every metered block.

use vstd::prelude::*;
use crate::module::{
    ExportEntry, ExportEntryV, ExportKind, Func, FuncType, FuncTypeV, FuncV, GlobalEntry,
    ImportEntry, ImportEntryV, ImportKind, InitValue, Instruction, Module, ModuleV, ValType,
    func_import_count, spec_calls_below, spec_func_imports, spec_functions_space,
};
use crate::rules::CostRules;

verus! {

/// Reserved export name of the gas counter global.
pub open spec fn gas_export_name() -> Seq<char> {
    "gear_gas"@
}

/// Reserved export name of the allowance counter global.
pub open spec fn allowance_export_name() -> Seq<char> {
    "gear_allowance"@
}

/// Import name of the out-of-gas trap function.
pub open spec fn out_of_gas_name() -> Seq<char> {
    "out_of_gas"@
}

/// Import name of the out-of-allowance trap function.
pub open spec fn out_of_allowance_name() -> Seq<char> {
    "out_of_allowance"@
}

/// Some import entry binds one of the trap functions from the given
/// namespace.
pub open spec fn spec_has_trap_import(imports: Seq<ImportEntryV>, gas_mod: Seq<char>) -> bool {
    exists|i: int|
        0 <= i < imports.len() && (#[trigger] imports[i]).module == gas_mod && (imports[i].field
            == out_of_gas_name() || imports[i].field == out_of_allowance_name())
}

/// Some export entry carries a reserved counter name.
pub open spec fn spec_exports_counter(exports: Seq<ExportEntryV>) -> bool {
    exists|i: int|
        0 <= i < exports.len() && ((#[trigger] exports[i]).field == gas_export_name()
            || exports[i].field == allowance_export_name())
}

/// Duplicate-instrumentation heuristic: a trap import from the namespace or
/// a reserved counter export means the module was already instrumented.
pub open spec fn spec_already_instrumented(m: ModuleV, gas_mod: Seq<char>) -> bool {
    spec_has_trap_import(m.imports, gas_mod) || spec_exports_counter(m.exports)
}

fn has_trap_import(imports: &Vec<ImportEntry>, gas_module_name: &str) -> (r: bool)
    ensures
        r == spec_has_trap_import(imports@.map_values(|e: ImportEntry| e@), gas_module_name@),
{
    let ghost iv = imports@.map_values(|e: ImportEntry| e@);
    let gas_mod: String = gas_module_name.to_owned();
    let oog: String = "out_of_gas".to_owned();
    let ooa: String = "out_of_allowance".to_owned();
    let mut i: usize = 0;
    while i < imports.len()
        invariant
            i <= imports@.len(),
            iv == imports@.map_values(|e: ImportEntry| e@),
            gas_mod@ == gas_module_name@,
            oog@ == out_of_gas_name(),
            ooa@ == out_of_allowance_name(),
            forall|j: int|
                0 <= j < i ==> !((#[trigger] iv[j]).module == gas_module_name@ && (iv[j].field
                    == out_of_gas_name() || iv[j].field == out_of_allowance_name())),
        decreases imports@.len() - i,
    {
        let e = &imports[i];
        if e.module == gas_mod && (e.field == oog || e.field == ooa) {
            proof {
                assert(iv[i as int].module == gas_module_name@ && (iv[i as int].field
                    == out_of_gas_name() || iv[i as int].field == out_of_allowance_name()));
            }
            return true;
        }
        i = i + 1;
    }
    false
}

fn exports_counter(exports: &Vec<ExportEntry>) -> (r: bool)
    ensures
        r == spec_exports_counter(exports@.map_values(|e: ExportEntry| e@)),
{
    let ghost ev = exports@.map_values(|e: ExportEntry| e@);
    let gas_name: String = "gear_gas".to_owned();
    let allowance_name: String = "gear_allowance".to_owned();
    let mut i: usize = 0;
    while i < exports.len()
        invariant
            i <= exports@.len(),
            ev == exports@.map_values(|e: ExportEntry| e@),
            gas_name@ == gas_export_name(),
            allowance_name@ == allowance_export_name(),
            forall|j: int|
                0 <= j < i ==> !((#[trigger] ev[j]).field == gas_export_name() || ev[j].field
                    == allowance_export_name()),
        decreases exports@.len() - i,
    {
        let e = &exports[i];
        if e.field == gas_name || e.field == allowance_name {
            proof {
                assert(ev[i as int].field == gas_export_name() || ev[i as int].field
                    == allowance_export_name());
            }
            return true;
        }
        i = i + 1;
    }
    false
}

/// Body of the synthesized charging routine. Operand 0 is the block cost
/// `c`; the routine computes `total = zero_extend(c) + overhead` once, then
/// checks and decrements gas, then checks and decrements allowance; a failed
/// check calls the matching trap import and raises an unreachable trap so
/// that no further instruction executes.
pub open spec fn spec_charge_template(
    gas_idx: u32,
    allowance_idx: u32,
    oog_idx: u32,
    ooa_idx: u32,
    overhead: u64,
) -> Seq<Instruction> {
    seq![
        Instruction::GetGlobal(gas_idx),
        Instruction::GetLocal(0),
        Instruction::I64ExtendUI32,
        Instruction::I64Const(overhead as i64),
        Instruction::I64Add,
        Instruction::TeeLocal(1),
        Instruction::I64LtU,
        Instruction::If,
        Instruction::Call(oog_idx),
        Instruction::Unreachable,
        Instruction::End,
        Instruction::GetGlobal(gas_idx),
        Instruction::GetLocal(1),
        Instruction::I64Sub,
        Instruction::SetGlobal(gas_idx),
        Instruction::GetGlobal(allowance_idx),
        Instruction::GetLocal(1),
        Instruction::I64LtU,
        Instruction::If,
        Instruction::Call(ooa_idx),
        Instruction::Unreachable,
        Instruction::End,
        Instruction::GetGlobal(allowance_idx),
        Instruction::GetLocal(1),
        Instruction::I64Sub,
        Instruction::SetGlobal(allowance_idx),
        Instruction::End,
    ]
}

/// Static cost of the charging routine's successful path: the cost of every
/// template instruction not reached only through a branch. The two `If`
/// bodies (the trap calls) are excluded; they are costed independently when
/// reached, which never returns.
pub open spec fn spec_filtered_cost_from(
    t: Seq<Instruction>,
    r: CostRules,
    i: int,
    in_block: bool,
    acc: int,
) -> Option<int>
    decreases t.len() - i,
{
    if i < 0 || i >= t.len() {
        Some(acc)
    } else {
        let ins = t[i];
        let counted = match ins {
            Instruction::If => true,
            Instruction::End => false,
            _ => !in_block,
        };
        let next = match ins {
            Instruction::If => true,
            Instruction::End => false,
            _ => in_block,
        };
        if counted {
            match r.spec_instruction_cost(ins) {
                None => None,
                Some(c) => spec_filtered_cost_from(t, r, i + 1, next, acc + c),
            }
        } else {
            spec_filtered_cost_from(t, r, i + 1, next, acc)
        }
    }
}

/// The per-call overhead of the charging routine: its own successful-path
/// cost, plus the cost of pushing the block-cost operand, plus the cost of
/// the call itself, plus the per-local cost of its one local.
pub open spec fn spec_overhead(r: CostRules, t: Seq<Instruction>) -> Option<int> {
    match spec_filtered_cost_from(t, r, 0, false, 0) {
        None => None,
        Some(tc) => match (
            r.spec_instruction_cost(Instruction::I32Const(0)),
            r.spec_instruction_cost(Instruction::Call(0)),
        ) {
            (Some(cp), Some(cc)) => Some(tc + cp + cc + r.call_per_local),
            _ => None,
        },
    }
}

fn build_charge_template(
    gas_idx: u32,
    allowance_idx: u32,
    oog_idx: u32,
    ooa_idx: u32,
    overhead: u64,
) -> (v: Vec<Instruction>)
    ensures
        v@ == spec_charge_template(gas_idx, allowance_idx, oog_idx, ooa_idx, overhead),
{
    let mut v: Vec<Instruction> = Vec::new();
    v.push(Instruction::GetGlobal(gas_idx));
    v.push(Instruction::GetLocal(0));
    v.push(Instruction::I64ExtendUI32);
    v.push(Instruction::I64Const(overhead as i64));
    v.push(Instruction::I64Add);
    v.push(Instruction::TeeLocal(1));
    v.push(Instruction::I64LtU);
    v.push(Instruction::If);
    v.push(Instruction::Call(oog_idx));
    v.push(Instruction::Unreachable);
    v.push(Instruction::End);
    v.push(Instruction::GetGlobal(gas_idx));
    v.push(Instruction::GetLocal(1));
    v.push(Instruction::I64Sub);
    v.push(Instruction::SetGlobal(gas_idx));
    v.push(Instruction::GetGlobal(allowance_idx));
    v.push(Instruction::GetLocal(1));
    v.push(Instruction::I64LtU);
    v.push(Instruction::If);
    v.push(Instruction::Call(ooa_idx));
    v.push(Instruction::Unreachable);
    v.push(Instruction::End);
    v.push(Instruction::GetGlobal(allowance_idx));
    v.push(Instruction::GetLocal(1));
    v.push(Instruction::I64Sub);
    v.push(Instruction::SetGlobal(allowance_idx));
    v.push(Instruction::End);
    proof {
        assert(v@ =~= spec_charge_template(gas_idx, allowance_idx, oog_idx, ooa_idx, overhead));
    }
    v
}

fn template_filtered_cost(t: &Vec<Instruction>, r: &CostRules) -> (res: Option<u64>)
    requires
        t@.len() <= 64,
    ensures
        match res {
            Some(v) => spec_filtered_cost_from(t@, *r, 0, false, 0) == Some(v as int),
            None => spec_filtered_cost_from(t@, *r, 0, false, 0) is None,
        },
{
    let mut acc: u64 = 0;
    let mut in_block: bool = false;
    let mut i: usize = 0;
    while i < t.len()
        invariant
            i <= t@.len(),
            t@.len() <= 64,
            acc <= i * 0xffff_ffff,
            spec_filtered_cost_from(t@, *r, 0, false, 0) == spec_filtered_cost_from(
                t@,
                *r,
                i as int,
                in_block,
                acc as int,
            ),
        decreases t@.len() - i,
    {
        let ins = t[i];
        let counted: bool = match ins {
            Instruction::If => true,
            Instruction::End => false,
            _ => !in_block,
        };
        let next: bool = match ins {
            Instruction::If => true,
            Instruction::End => false,
            _ => in_block,
        };
        if counted {
            match r.instruction_cost(&ins) {
                None => {
                    return None;
                },
                Some(c) => {
                    acc = acc + (c as u64);
                },
            }
        }
        in_block = next;
        i = i + 1;
    }
    Some(acc)
}

/// An instruction that ends a maximal branch-free run: structured control
/// flow, a branch, a return, or a trap. The instruction itself still belongs
/// to the block it ends, so its cost is charged with that block.
pub open spec fn spec_is_boundary(ins: Instruction) -> bool {
    match ins {
        Instruction::Block => true,
        Instruction::Loop => true,
        Instruction::If => true,
        Instruction::Else => true,
        Instruction::End => true,
        Instruction::Br(_) => true,
        Instruction::BrIf(_) => true,
        Instruction::Return => true,
        Instruction::Unreachable => true,
        _ => false,
    }
}

/// Adding two imports shifts every defined function's index up by two; a
/// call to one of the first `k` (imported) functions keeps its index.
pub open spec fn spec_remap_call(ins: Instruction, k: int) -> Instruction {
    match ins {
        Instruction::Call(f) => if f < k {
            ins
        } else {
            Instruction::Call((f + 2) as u32)
        },
        _ => ins,
    }
}

/// The two instructions inserted at the head of a metered block: push the
/// block's cost as a 32-bit immediate and call the charging routine.
pub open spec fn spec_charge_call(cost: int, charge_idx: u32) -> Seq<Instruction> {
    seq![Instruction::I32Const(cost as u32 as i32), Instruction::Call(charge_idx)]
}

/// Metering of a body from position `i` on, with `blk` the instructions of
/// the current (unfinished) block already remapped and `cost` their summed
/// cost. Fails when a cost lookup fails or a block's cost exceeds the
/// 32-bit immediate the charging routine accepts.
pub open spec fn spec_meter_acc(
    body: Seq<Instruction>,
    r: CostRules,
    charge_idx: u32,
    k: int,
    i: int,
    blk: Seq<Instruction>,
    cost: int,
) -> Option<Seq<Instruction>>
    decreases body.len() - i,
{
    if i < 0 || i >= body.len() {
        if blk.len() == 0 {
            Some(Seq::empty())
        } else if cost > u32::MAX {
            None
        } else {
            Some(spec_charge_call(cost, charge_idx) + blk)
        }
    } else {
        match r.spec_instruction_cost(body[i]) {
            None => None,
            Some(c) => {
                let blk2 = blk.push(spec_remap_call(body[i], k));
                let cost2 = cost + c;
                if spec_is_boundary(body[i]) {
                    if cost2 > u32::MAX {
                        None
                    } else {
                        match spec_meter_acc(body, r, charge_idx, k, i + 1, Seq::empty(), 0) {
                            None => None,
                            Some(rest) => Some(
                                spec_charge_call(cost2, charge_idx) + blk2 + rest,
                            ),
                        }
                    }
                } else {
                    spec_meter_acc(body, r, charge_idx, k, i + 1, blk2, cost2)
                }
            },
        }
    }
}

/// Metering of one whole body: partition it into maximal branch-free runs,
/// sum each run's static cost, and insert a charge call at each run's head,
/// remapping call targets for the two new imports.
pub open spec fn spec_meter_body(
    body: Seq<Instruction>,
    r: CostRules,
    charge_idx: u32,
    k: int,
) -> Option<Seq<Instruction>> {
    spec_meter_acc(body, r, charge_idx, k, 0, Seq::empty(), 0)
}

/// The statically computed costs of a body's maximal branch-free runs from
/// position `i` on, with `started` saying whether a run is open and `cost`
/// its sum so far. Fails exactly where metering fails.
pub open spec fn spec_block_costs_acc(
    body: Seq<Instruction>,
    r: CostRules,
    i: int,
    started: bool,
    cost: int,
) -> Option<Seq<u32>>
    decreases body.len() - i,
{
    if i < 0 || i >= body.len() {
        if !started {
            Some(Seq::empty())
        } else if cost > u32::MAX {
            None
        } else {
            Some(seq![cost as u32])
        }
    } else {
        match r.spec_instruction_cost(body[i]) {
            None => None,
            Some(c) => {
                let cost2 = cost + c;
                if spec_is_boundary(body[i]) {
                    if cost2 > u32::MAX {
                        None
                    } else {
                        match spec_block_costs_acc(body, r, i + 1, false, 0) {
                            None => None,
                            Some(rest) => Some(seq![cost2 as u32] + rest),
                        }
                    }
                } else {
                    spec_block_costs_acc(body, r, i + 1, true, cost2)
                }
            },
        }
    }
}

/// The statically computed cost of each metered block of a body, in order.
pub open spec fn spec_block_costs(body: Seq<Instruction>, r: CostRules) -> Option<Seq<u32>> {
    spec_block_costs_acc(body, r, 0, false, 0)
}

/// A metered body is empty or opens with the 32-bit immediate of its first
/// block's charge.
pub proof fn lemma_meter_acc_head(
    body: Seq<Instruction>,
    r: CostRules,
    charge_idx: u32,
    k: int,
    i: int,
    blk: Seq<Instruction>,
    cost: int,
)
    requires
        spec_meter_acc(body, r, charge_idx, k, i, blk, cost) is Some,
    ensures
        spec_meter_acc(body, r, charge_idx, k, i, blk, cost)->Some_0.len() == 0 || spec_meter_acc(
            body,
            r,
            charge_idx,
            k,
            i,
            blk,
            cost,
        )->Some_0[0] matches Instruction::I32Const(_),
    decreases body.len() - i,
{
    if 0 <= i < body.len() {
        match r.spec_instruction_cost(body[i]) {
            None => {},
            Some(c) => {
                if !spec_is_boundary(body[i]) {
                    lemma_meter_acc_head(
                        body,
                        r,
                        charge_idx,
                        k,
                        i + 1,
                        blk.push(spec_remap_call(body[i], k)),
                        cost + c,
                    );
                }
            },
        }
    }
}

/// Once the running block cost exceeds the 32-bit bound, metering of the
/// body can only fail.
proof fn lemma_meter_acc_overcost(
    body: Seq<Instruction>,
    r: CostRules,
    charge_idx: u32,
    k: int,
    i: int,
    blk: Seq<Instruction>,
    cost: int,
)
    requires
        cost > u32::MAX,
        blk.len() > 0,
    ensures
        spec_meter_acc(body, r, charge_idx, k, i, blk, cost) is None,
    decreases body.len() - i,
{
    if 0 <= i < body.len() {
        match r.spec_instruction_cost(body[i]) {
            None => {},
            Some(c) => {
                if !spec_is_boundary(body[i]) {
                    lemma_meter_acc_overcost(
                        body,
                        r,
                        charge_idx,
                        k,
                        i + 1,
                        blk.push(spec_remap_call(body[i], k)),
                        cost + c,
                    );
                }
            },
        }
    }
}

fn is_boundary(ins: &Instruction) -> (r: bool)
    ensures
        r == spec_is_boundary(*ins),
{
    match *ins {
        Instruction::Block => true,
        Instruction::Loop => true,
        Instruction::If => true,
        Instruction::Else => true,
        Instruction::End => true,
        Instruction::Br(_) => true,
        Instruction::BrIf(_) => true,
        Instruction::Return => true,
        Instruction::Unreachable => true,
        _ => false,
    }
}

fn meter_body(
    body: &Vec<Instruction>,
    r: &CostRules,
    charge_idx: u32,
    k: usize,
    fspace: u32,
) -> (res: Option<Vec<Instruction>>)
    requires
        spec_calls_below(body@, fspace as int),
        fspace + 2 <= u32::MAX,
        k as int <= fspace as int,
    ensures
        match res {
            Some(v) => spec_meter_body(body@, *r, charge_idx, k as int) == Some(v@),
            None => spec_meter_body(body@, *r, charge_idx, k as int) is None,
        },
{
    let mut out: Vec<Instruction> = Vec::new();
    let mut blk: Vec<Instruction> = Vec::new();
    let mut acc: u64 = 0;
    let mut i: usize = 0;
    while i < body.len()
        invariant
            i <= body@.len(),
            spec_calls_below(body@, fspace as int),
            fspace + 2 <= u32::MAX,
            acc <= u32::MAX,
            match spec_meter_acc(body@, *r, charge_idx, k as int, i as int, blk@, acc as int) {
                Some(rest) => spec_meter_body(body@, *r, charge_idx, k as int) == Some(out@ + rest),
                None => spec_meter_body(body@, *r, charge_idx, k as int) is None,
            },
        decreases body@.len() - i,
    {
        let ins = body[i];
        let c = match r.instruction_cost(&ins) {
            None => {
                return None;
            },
            Some(c) => c,
        };
        let emitted: Instruction = match ins {
            Instruction::Call(f) => {
                proof {
                    assert(body@[i as int] matches Instruction::Call(g) && g < fspace);
                }
                if (f as usize) < k {
                    Instruction::Call(f)
                } else {
                    Instruction::Call(f + 2)
                }
            },
            _ => ins,
        };
        proof {
            assert(emitted == spec_remap_call(body@[i as int], k as int));
        }
        let ghost old_blk = blk@;
        let ghost old_out = out@;
        blk.push(emitted);
        let acc2: u64 = acc + (c as u64);
        if is_boundary(&ins) {
            if acc2 > u32::MAX as u64 {
                return None;
            }
            out.push(Instruction::I32Const(acc2 as u32 as i32));
            out.push(Instruction::Call(charge_idx));
            out.append(&mut blk);
            proof {
                let rest_src = spec_meter_acc(
                    body@,
                    *r,
                    charge_idx,
                    k as int,
                    i as int + 1,
                    Seq::<Instruction>::empty(),
                    0,
                );
                if rest_src is Some {
                    assert(out@ + rest_src->Some_0 =~= old_out + (spec_charge_call(
                        acc2 as int,
                        charge_idx,
                    ) + old_blk.push(emitted) + rest_src->Some_0));
                }
            }
            acc = 0;
        } else {
            if acc2 > u32::MAX as u64 {
                proof {
                    lemma_meter_acc_overcost(
                        body@,
                        *r,
                        charge_idx,
                        k as int,
                        i as int + 1,
                        old_blk.push(emitted),
                        acc2 as int,
                    );
                }
                return None;
            }
            acc = acc2;
        }
        i = i + 1;
    }
    if blk.len() > 0 {
        let ghost old_out = out@;
        let ghost old_blk = blk@;
        out.push(Instruction::I32Const(acc as u32 as i32));
        out.push(Instruction::Call(charge_idx));
        out.append(&mut blk);
        proof {
            assert(out@ =~= old_out + (spec_charge_call(acc as int, charge_idx) + old_blk));
        }
    }
    proof {
        assert(out@ + Seq::<Instruction>::empty() =~= out@);
    }
    Some(out)
}

/// Metering of every defined function from position `i` on; the bodies are
/// rewritten, the type indices and locals kept.
pub open spec fn spec_meter_functions_from(
    funcs: Seq<FuncV>,
    r: CostRules,
    charge_idx: u32,
    k: int,
    i: int,
) -> Option<Seq<FuncV>>
    decreases funcs.len() - i,
{
    if i < 0 || i >= funcs.len() {
        Some(Seq::empty())
    } else {
        match (
            spec_meter_body(funcs[i].body, r, charge_idx, k),
            spec_meter_functions_from(funcs, r, charge_idx, k, i + 1),
        ) {
            (Some(b), Some(rest)) => Some(
                seq![FuncV { type_index: funcs[i].type_index, locals: funcs[i].locals, body: b }]
                    + rest,
            ),
            _ => None,
        }
    }
}

/// Metering of every defined function of a module.
pub open spec fn spec_meter_functions(
    funcs: Seq<FuncV>,
    r: CostRules,
    charge_idx: u32,
    k: int,
) -> Option<Seq<FuncV>> {
    spec_meter_functions_from(funcs, r, charge_idx, k, 0)
}

fn copy_valtypes(v: &Vec<ValType>) -> (r: Vec<ValType>)
    ensures
        r@ == v@,
{
    let mut r: Vec<ValType> = Vec::new();
    let mut i: usize = 0;
    while i < v.len()
        invariant
            i <= v@.len(),
            r@ == v@.subrange(0, i as int),
        decreases v@.len() - i,
    {
        r.push(v[i]);
        proof {
            assert(r@ =~= v@.subrange(0, i as int + 1));
        }
        i = i + 1;
    }
    proof {
        assert(v@.subrange(0, v@.len() as int) =~= v@);
    }
    r
}

fn meter_functions(
    functions: &Vec<Func>,
    r: &CostRules,
    charge_idx: u32,
    k: usize,
    fspace: u32,
) -> (res: Option<Vec<Func>>)
    requires
        forall|i: int|
            0 <= i < functions@.len() ==> spec_calls_below(
                (#[trigger] functions@[i])@.body,
                fspace as int,
            ),
        fspace + 2 <= u32::MAX,
        k as int <= fspace as int,
    ensures
        match res {
            Some(v) => spec_meter_functions(
                functions@.map_values(|f: Func| f@),
                *r,
                charge_idx,
                k as int,
            ) == Some(v@.map_values(|f: Func| f@)),
            None => spec_meter_functions(
                functions@.map_values(|f: Func| f@),
                *r,
                charge_idx,
                k as int,
            ) is None,
        },
{
    let ghost fv = functions@.map_values(|f: Func| f@);
    let mut out: Vec<Func> = Vec::new();
    let mut i: usize = 0;
    while i < functions.len()
        invariant
            i <= functions@.len(),
            fv == functions@.map_values(|f: Func| f@),
            forall|j: int|
                0 <= j < functions@.len() ==> spec_calls_below(
                    (#[trigger] functions@[j])@.body,
                    fspace as int,
                ),
            fspace + 2 <= u32::MAX,
            k as int <= fspace as int,
            match spec_meter_functions_from(fv, *r, charge_idx, k as int, i as int) {
                Some(rest) => spec_meter_functions(fv, *r, charge_idx, k as int) == Some(
                    out@.map_values(|f: Func| f@) + rest,
                ),
                None => spec_meter_functions(fv, *r, charge_idx, k as int) is None,
            },
        decreases functions@.len() - i,
    {
        let f = &functions[i];
        match meter_body(&f.body, r, charge_idx, k, fspace) {
            None => {
                return None;
            },
            Some(new_body) => {
                let ghost old_out = out@;
                out.push(Func { type_index: f.type_index, locals: copy_valtypes(&f.locals), body: new_body });
                proof {
                    let rest2 = spec_meter_functions_from(fv, *r, charge_idx, k as int, i as int + 1);
                    if rest2 is Some {
                        assert(out@.map_values(|f: Func| f@) =~= old_out.map_values(
                            |f: Func| f@,
                        ).push(out@.last()@));
                        assert(out@.map_values(|f: Func| f@) + rest2->Some_0 =~= old_out.map_values(
                            |f: Func| f@,
                        ) + (seq![
                            FuncV {
                                type_index: fv[i as int].type_index,
                                locals: fv[i as int].locals,
                                body: spec_meter_body(fv[i as int].body, *r, charge_idx, k as int)->Some_0,
                            },
                        ] + rest2->Some_0));
                    }
                }
            },
        }
        i = i + 1;
    }
    proof {
        assert(out@.map_values(|f: Func| f@) + Seq::<FuncV>::empty() =~= out@.map_values(
            |f: Func| f@,
        ));
    }
    Some(out)
}

/// A mutable 64-bit counter global, initial value 0; the host sets it
/// before execution.
pub open spec fn spec_counter_global() -> GlobalEntry {
    GlobalEntry { mutable: true, value_type: ValType::I64, init: InitValue::I64(0) }
}

/// The module after the first rewriting stage: the two trap imports (with a
/// fresh empty signature) appended to the imports, the two counter globals
/// appended to the globals, and the two counter exports appended to the
/// exports. Bodies are not yet metered.
pub open spec fn spec_prelude(m: ModuleV, gas_mod: Seq<char>) -> ModuleV {
    let tidx = m.types.len() as u32;
    let g = m.globals.len() as u32;
    ModuleV {
        types: m.types + seq![FuncTypeV { params: Seq::empty(), result: None }],
        imports: m.imports + seq![
            ImportEntryV { module: gas_mod, field: out_of_gas_name(), kind: ImportKind::Func(tidx) },
            ImportEntryV {
                module: gas_mod,
                field: out_of_allowance_name(),
                kind: ImportKind::Func(tidx),
            },
        ],
        functions: m.functions,
        globals: m.globals + seq![spec_counter_global(), spec_counter_global()],
        exports: m.exports + seq![
            ExportEntryV { field: gas_export_name(), kind: ExportKind::Global(g) },
            ExportEntryV { field: allowance_export_name(), kind: ExportKind::Global((g + 1) as u32) },
        ],
    }
}

/// The synthesized charging function of a module: one `i32` parameter, one
/// extra `i64` local, and the template body over the module's counter
/// globals and trap imports.
pub open spec fn spec_charge_func(m: ModuleV, overhead: u64) -> FuncV {
    let k = spec_func_imports(m.imports);
    FuncV {
        type_index: (m.types.len() + 1) as u32,
        locals: seq![ValType::I64],
        body: spec_charge_template(
            m.globals.len() as u32,
            (m.globals.len() + 1) as u32,
            k as u32,
            (k + 1) as u32,
            overhead,
        ),
    }
}

/// Function exports shift with the two new imports, like calls do.
pub open spec fn spec_remap_export(e: ExportEntryV, k: int) -> ExportEntryV {
    match e.kind {
        ExportKind::Func(f) => ExportEntryV {
            field: e.field,
            kind: ExportKind::Func(
                if f < k {
                    f
                } else {
                    ((f + 2) as u32)
                },
            ),
        },
        _ => e,
    }
}

/// The whole injection, as one function of the input module, the rules and
/// the trap-import namespace. An already-instrumented module is rejected
/// unchanged. A failed cost lookup or an overhead that could overflow the
/// 64-bit accumulation aborts with the partially rewritten module as the
/// explicitly failed payload; so does a metered block whose cost exceeds the
/// 32-bit immediate.
pub open spec fn spec_inject(m: ModuleV, r: CostRules, gas_mod: Seq<char>) -> Result<
    ModuleV,
    ModuleV,
> {
    if spec_already_instrumented(m, gas_mod) {
        Err(m)
    } else {
        let pre = spec_prelude(m, gas_mod);
        let k = spec_func_imports(m.imports);
        let template0 = spec_charge_template(
            m.globals.len() as u32,
            (m.globals.len() + 1) as u32,
            k as u32,
            (k + 1) as u32,
            0,
        );
        match spec_overhead(r, template0) {
            None => Err(pre),
            Some(oh) => if oh > u64::MAX - u32::MAX {
                Err(pre)
            } else {
                let charge_idx = (k + 2 + m.functions.len()) as u32;
                let pre2 = ModuleV {
                    types: pre.types + seq![
                        FuncTypeV { params: seq![ValType::I32], result: None },
                    ],
                    imports: pre.imports,
                    functions: pre.functions + seq![spec_charge_func(m, oh as u64)],
                    globals: pre.globals,
                    exports: pre.exports,
                };
                match spec_meter_functions(m.functions, r, charge_idx, k) {
                    None => Err(pre2),
                    Some(fs) => Ok(
                        ModuleV {
                            types: pre2.types,
                            imports: pre2.imports,
                            functions: fs + seq![spec_charge_func(m, oh as u64)],
                            globals: pre2.globals,
                            exports: pre2.exports.map_values(
                                |e: ExportEntryV| spec_remap_export(e, k),
                            ),
                        },
                    ),
                }
            },
        }
    }
}

/// View of an injection result, for relating the executable pass to its
/// mathematical image.
pub open spec fn spec_result_view(r: Result<Module, Module>) -> Result<ModuleV, ModuleV> {
    match r {
        Ok(m) => Ok(m@),
        Err(m) => Err(m@),
    }
}

fn remap_exports(exports: Vec<ExportEntry>, k: usize) -> (res: Vec<ExportEntry>)
    requires
        forall|i: int|
            0 <= i < exports@.len() ==> ((#[trigger] exports@[i])@.kind matches ExportKind::Func(f)
                ==> f + 2 <= u32::MAX),
    ensures
        res@.map_values(|e: ExportEntry| e@) == exports@.map_values(|e: ExportEntry| e@).map_values(
            |e: ExportEntryV| spec_remap_export(e, k as int),
        ),
{
    let ghost orig = exports@;
    let ghost target = exports@.map_values(|e: ExportEntry| e@).map_values(
        |e: ExportEntryV| spec_remap_export(e, k as int),
    );
    let mut rem = exports;
    let mut out: Vec<ExportEntry> = Vec::new();
    while rem.len() > 0
        invariant
            out@.len() + rem@.len() == orig.len(),
            rem@ =~= orig.subrange(out@.len() as int, orig.len() as int),
            target == orig.map_values(|e: ExportEntry| e@).map_values(
                |e: ExportEntryV| spec_remap_export(e, k as int),
            ),
            forall|i: int|
                0 <= i < orig.len() ==> ((#[trigger] orig[i])@.kind matches ExportKind::Func(f)
                    ==> f + 2 <= u32::MAX),
            out@.map_values(|e: ExportEntry| e@) =~= target.subrange(0, out@.len() as int),
        decreases rem@.len(),
    {
        let ghost n = out@.len() as int;
        let e = rem.remove(0);
        proof {
            assert(e == orig[n]);
            assert(rem@ =~= orig.subrange(n + 1, orig.len() as int));
        }
        let kind = match e.kind {
            ExportKind::Func(f) => {
                proof {
                    assert(orig[n]@.kind matches ExportKind::Func(g) && g + 2 <= u32::MAX);
                }
                if (f as usize) < k {
                    ExportKind::Func(f)
                } else {
                    ExportKind::Func(f + 2)
                }
            },
            other => other,
        };
        out.push(ExportEntry { field: e.field, kind });
        proof {
            assert(out@.map_values(|e2: ExportEntry| e2@) =~= target.subrange(0, n + 1));
        }
    }
    proof {
        assert(target.subrange(0, orig.len() as int) =~= target);
    }
    out
}

fn compute_overhead(t: &Vec<Instruction>, r: &CostRules) -> (res: Option<u64>)
    requires
        t@.len() <= 64,
    ensures
        match res {
            Some(v) => spec_overhead(*r, t@) == Some(v as int) && v <= u64::MAX - u32::MAX,
            None => spec_overhead(*r, t@) is None || spec_overhead(*r, t@)->Some_0 > u64::MAX
                - u32::MAX,
        },
{
    let limit: u64 = u64::MAX - 0xffff_ffffu64;
    let tc: u64 = match template_filtered_cost(t, r) {
        None => {
            return None;
        },
        Some(v) => v,
    };
    let cp: u32 = match r.instruction_cost(&Instruction::I32Const(0)) {
        None => {
            return None;
        },
        Some(v) => v,
    };
    let cc: u32 = match r.instruction_cost(&Instruction::Call(0)) {
        None => {
            return None;
        },
        Some(v) => v,
    };
    let pl: u32 = r.call_per_local_cost();
    if tc > limit {
        return None;
    }
    let s1: u64 = tc + (cp as u64);
    if s1 > limit {
        return None;
    }
    let s2: u64 = s1 + (cc as u64);
    if s2 > limit {
        return None;
    }
    let s3: u64 = s2 + (pl as u64);
    if s3 > limit {
        return None;
    }
    Some(s3)
}

/// Rewrite a validated module into an equivalent module with deterministic
/// gas and allowance accounting: two trap imports from `gas_module_name`,
/// two exported mutable 64-bit counter globals under the reserved names, a
/// synthesized charging function, and a charge call at the head of every
/// metered block of every function.
///
/// A module that already imports a trap function from that namespace or
/// already exports a reserved counter name is rejected and returned
/// unchanged as the error payload, so callers can tell "already safe" from
/// a hard failure. A failed cost lookup, a per-call overhead above
/// `u64::MAX - u32::MAX`, or a block cost above `u32::MAX` also fails, with
/// the partially rewritten — explicitly failed, never half-patched-looking —
/// module as payload.
pub fn inject(module: Module, rules: &CostRules, gas_module_name: &str) -> (r: Result<
    Module,
    Module,
>)
    requires
        module@.types.len() + 2 <= u32::MAX,
        module@.globals.len() + 2 <= u32::MAX,
        spec_functions_space(module@) + 3 <= u32::MAX,
        forall|i: int|
            0 <= i < module@.functions.len() ==> spec_calls_below(
                (#[trigger] module@.functions[i]).body,
                spec_functions_space(module@),
            ),
        forall|i: int|
            0 <= i < module@.exports.len() ==> ((#[trigger] module@.exports[i]).kind matches
                ExportKind::Func(f) ==> f < spec_functions_space(module@)),
    ensures
        spec_result_view(r) == spec_inject(module@, *rules, gas_module_name@),
        spec_already_instrumented(module@, gas_module_name@) ==> r == Err::<Module, Module>(module),
{
    let ghost mv = module@;
    if has_trap_import(&module.imports, gas_module_name) || exports_counter(&module.exports) {
        return Err(module);
    }
    let k: usize = func_import_count(&module.imports);
    proof {
        assert(spec_func_imports(mv.imports) >= 0);
        assert(k as int + mv.functions.len() == spec_functions_space(mv));
    }
    let Module { mut types, mut imports, mut functions, mut globals, mut exports } = module;
    let tidx: u32 = types.len() as u32;
    let gidx: u32 = globals.len() as u32;
    types.push(FuncType { params: Vec::new(), result: None });
    imports.push(
        ImportEntry {
            module: gas_module_name.to_owned(),
            field: "out_of_gas".to_owned(),
            kind: ImportKind::Func(tidx),
        },
    );
    imports.push(
        ImportEntry {
            module: gas_module_name.to_owned(),
            field: "out_of_allowance".to_owned(),
            kind: ImportKind::Func(tidx),
        },
    );
    globals.push(GlobalEntry { mutable: true, value_type: ValType::I64, init: InitValue::I64(0) });
    exports.push(ExportEntry { field: "gear_gas".to_owned(), kind: ExportKind::Global(gidx) });
    globals.push(GlobalEntry { mutable: true, value_type: ValType::I64, init: InitValue::I64(0) });
    exports.push(
        ExportEntry { field: "gear_allowance".to_owned(), kind: ExportKind::Global(gidx + 1) },
    );
    let ghost pre = spec_prelude(mv, gas_module_name@);
    proof {
        assert(types@.map_values(|t: FuncType| t@) =~~= pre.types);
        assert(imports@.map_values(|e: ImportEntry| e@) =~~= pre.imports);
        assert(globals@ =~= pre.globals);
        assert(exports@.map_values(|e: ExportEntry| e@) =~~= pre.exports);
        assert(functions@.map_values(|f: Func| f@) == mv.functions);
    }
    let template0 = build_charge_template(gidx, gidx + 1, k as u32, (k + 1) as u32, 0);
    let overhead: u64 = match compute_overhead(&template0, rules) {
        None => {
            let err = Module { types, imports, functions, globals, exports };
            proof {
                assert(err@ =~~= pre);
                assert(spec_inject(mv, *rules, gas_module_name@) == Err::<ModuleV, ModuleV>(pre));
            }
            return Err(err);
        },
        Some(v) => v,
    };
    let fspace_usize: usize = k + functions.len();
    let fspace: u32 = fspace_usize as u32;
    let charge_idx: u32 = (fspace_usize + 2) as u32;
    let mut param_i32: Vec<ValType> = Vec::new();
    param_i32.push(ValType::I32);
    types.push(FuncType { params: param_i32, result: None });
    let template = build_charge_template(gidx, gidx + 1, k as u32, (k + 1) as u32, overhead);
    let mut charge_locals: Vec<ValType> = Vec::new();
    charge_locals.push(ValType::I64);
    let charge_func = Func { type_index: tidx + 1, locals: charge_locals, body: template };
    let ghost pre2 = ModuleV {
        types: pre.types + seq![FuncTypeV { params: seq![ValType::I32], result: None }],
        imports: pre.imports,
        functions: pre.functions + seq![spec_charge_func(mv, overhead)],
        globals: pre.globals,
        exports: pre.exports,
    };
    proof {
        assert(charge_func@ =~~= spec_charge_func(mv, overhead));
        assert(types@.map_values(|t: FuncType| t@) =~~= pre2.types);
        assert forall|j: int| 0 <= j < functions@.len() implies spec_calls_below(
            (#[trigger] functions@[j])@.body,
            fspace as int,
        ) by {
            assert(functions@[j]@ == mv.functions[j]);
        }
    }
    match meter_functions(&functions, rules, charge_idx, k, fspace) {
        None => {
            functions.push(charge_func);
            let err = Module { types, imports, functions, globals, exports };
            proof {
                assert(err@.functions =~~= pre2.functions);
                assert(err@ =~~= pre2);
                assert(spec_inject(mv, *rules, gas_module_name@) == Err::<ModuleV, ModuleV>(pre2));
            }
            return Err(err);
        },
        Some(mut new_funcs) => {
            let ghost fs = new_funcs@.map_values(|f: Func| f@);
            new_funcs.push(charge_func);
            proof {
                assert forall|i: int|
                    0 <= i < exports@.len() implies ((#[trigger] exports@[i])@.kind matches
                    ExportKind::Func(f) ==> f + 2 <= u32::MAX) by {
                    assert(exports@[i]@ == pre.exports[i]);
                    if i < mv.exports.len() {
                        assert(pre.exports[i] == mv.exports[i]);
                    }
                }
            }
            let new_exports = remap_exports(exports, k);
            let out = Module {
                types,
                imports,
                functions: new_funcs,
                globals,
                exports: new_exports,
            };
            proof {
                let okv = spec_inject(mv, *rules, gas_module_name@)->Ok_0;
                assert(out@.functions =~~= fs + seq![spec_charge_func(mv, overhead)]);
                assert(out@.exports =~~= pre.exports.map_values(
                    |e: ExportEntryV| spec_remap_export(e, spec_func_imports(mv.imports)),
                ));
                assert(out@ =~~= okv);
            }
            Ok(out)
        },
    }
}

/// Appending the two trap imports grows the function import count by two.
pub proof fn lemma_func_imports_append_two(imports: Seq<ImportEntryV>, e1: ImportEntryV, e2: ImportEntryV)
    requires
        e1.kind is Func,
        e2.kind is Func,
    ensures
        spec_func_imports(imports + seq![e1, e2]) == spec_func_imports(imports) + 2,
{
    let one = imports + seq![e1];
    let two = imports + seq![e1, e2];
    assert(two.drop_last() =~= one);
    assert(two.last() == e2);
    assert(one.drop_last() =~= imports);
    assert(one.last() == e1);
    assert(spec_func_imports(two) == spec_func_imports(one) + 1);
    assert(spec_func_imports(one) == spec_func_imports(imports) + 1);
}

/// The metering pass produces one function per input function.
pub proof fn lemma_meter_functions_len(
    funcs: Seq<FuncV>,
    r: CostRules,
    charge_idx: u32,
    k: int,
    i: int,
)
    requires
        0 <= i <= funcs.len(),
        spec_meter_functions_from(funcs, r, charge_idx, k, i) is Some,
    ensures
        spec_meter_functions_from(funcs, r, charge_idx, k, i)->Some_0.len() == funcs.len() - i,
    decreases funcs.len() - i,
{
    if i < funcs.len() {
        lemma_meter_functions_len(funcs, r, charge_idx, k, i + 1);
    }
}

/// Each function the metering pass produces keeps its type and locals and
/// carries the metered image of its body.
pub proof fn lemma_meter_functions_index(
    funcs: Seq<FuncV>,
    r: CostRules,
    charge_idx: u32,
    k: int,
    i: int,
    j: int,
)
    requires
        0 <= i <= j < funcs.len(),
        spec_meter_functions_from(funcs, r, charge_idx, k, i) is Some,
    ensures
        spec_meter_functions_from(funcs, r, charge_idx, k, i)->Some_0.len() == funcs.len() - i,
        spec_meter_body(funcs[j].body, r, charge_idx, k) is Some,
        spec_meter_functions_from(funcs, r, charge_idx, k, i)->Some_0[j - i] == (FuncV {
            type_index: funcs[j].type_index,
            locals: funcs[j].locals,
            body: spec_meter_body(funcs[j].body, r, charge_idx, k)->Some_0,
        }),
    decreases funcs.len() - i,
{
    lemma_meter_functions_len(funcs, r, charge_idx, k, i);
    let rest = spec_meter_functions_from(funcs, r, charge_idx, k, i + 1)->Some_0;
    let cur = seq![
        FuncV {
            type_index: funcs[i].type_index,
            locals: funcs[i].locals,
            body: spec_meter_body(funcs[i].body, r, charge_idx, k)->Some_0,
        },
    ];
    assert(spec_meter_functions_from(funcs, r, charge_idx, k, i)->Some_0 == cur + rest);
    if j == i {
        assert((cur + rest)[0] == cur[0]);
    } else {
        lemma_meter_functions_index(funcs, r, charge_idx, k, i + 1, j);
        assert((cur + rest)[j - i] == rest[j - i - 1]);
    }
}

/// A successful injection leaves the reserved counter exports in place, so
/// the result is recognizably instrumented, whatever namespace a later pass
/// would use.
pub proof fn lemma_inject_marks_module(m: ModuleV, r: CostRules, gas_mod: Seq<char>)
    requires
        spec_inject(m, r, gas_mod) is Ok,
    ensures
        spec_exports_counter(spec_inject(m, r, gas_mod)->Ok_0.exports),
{
    let okv = spec_inject(m, r, gas_mod)->Ok_0;
    let pre = spec_prelude(m, gas_mod);
    let n = m.exports.len() as int;
    assert(okv.exports[n] == spec_remap_export(pre.exports[n], spec_func_imports(m.imports)));
    assert(okv.exports[n].field == gas_export_name());
}

/// Idempotent rejection: injecting into the result of a successful
/// injection fails, whatever rules and namespace the second pass uses, and
/// hands the first-injection result back unchanged as the error payload.
pub proof fn lemma_reinject_rejected(
    m: ModuleV,
    r1: CostRules,
    r2: CostRules,
    n1: Seq<char>,
    n2: Seq<char>,
)
    requires
        spec_inject(m, r1, n1) is Ok,
    ensures
        spec_inject(spec_inject(m, r1, n1)->Ok_0, r2, n2) == Err::<ModuleV, ModuleV>(
            spec_inject(m, r1, n1)->Ok_0,
        ),
{
    lemma_inject_marks_module(m, r1, n1);
}

} // verus!
