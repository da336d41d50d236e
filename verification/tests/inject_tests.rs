use wasm_metering::inject::inject;
use wasm_metering::module::{
    ExportEntry, ExportKind, Func, FuncType, GlobalEntry, ImportEntry, ImportKind, InitValue,
    Instruction, Module, ValType,
};
use wasm_metering::rules::CostRules;

fn flat_rules() -> CostRules {
    CostRules {
        const_cost: Some(1),
        arith_cost: Some(0),
        local_cost: Some(0),
        global_cost: Some(0),
        control_cost: Some(0),
        call_cost: Some(0),
        call_per_local: 0,
    }
}

fn small_module() -> Module {
    Module {
        types: vec![FuncType { params: vec![], result: None }],
        imports: vec![],
        functions: vec![Func {
            type_index: 0,
            locals: vec![],
            body: vec![
                Instruction::I32Const(1),
                Instruction::I32Const(2),
                Instruction::I32Const(3),
                Instruction::End,
            ],
        }],
        globals: vec![],
        exports: vec![ExportEntry { field: "run".to_string(), kind: ExportKind::Func(0) }],
    }
}

#[test]
fn inject_adds_imports_globals_exports() {
    let m = inject(small_module(), &flat_rules(), "env").expect("injection succeeds");
    assert_eq!(m.imports.len(), 2);
    assert_eq!(m.imports[0].module, "env");
    assert_eq!(m.imports[0].field, "out_of_gas");
    assert_eq!(m.imports[1].field, "out_of_allowance");
    assert!(matches!(m.imports[0].kind, ImportKind::Func(1)));
    assert_eq!(m.globals.len(), 2);
    assert_eq!(
        m.globals[0],
        GlobalEntry { mutable: true, value_type: ValType::I64, init: InitValue::I64(0) }
    );
    assert_eq!(m.exports.len(), 3);
    assert_eq!(m.exports[1].field, "gear_gas");
    assert_eq!(m.exports[1].kind, ExportKind::Global(0));
    assert_eq!(m.exports[2].field, "gear_allowance");
    assert_eq!(m.exports[2].kind, ExportKind::Global(1));
    // The function export shifted past the two new imports.
    assert_eq!(m.exports[0].kind, ExportKind::Func(2));
    // One synthesized function was appended.
    assert_eq!(m.functions.len(), 2);
}

#[test]
fn metered_body_charges_block_cost_at_its_head() {
    let m = inject(small_module(), &flat_rules(), "env").expect("injection succeeds");
    // One maximal branch-free run of static cost 3 (three constants at cost
    // 1, the End at cost 0), charged via the synthesized function at index
    // 3 (two imports + one original function + the routine itself).
    assert_eq!(
        m.functions[0].body,
        vec![
            Instruction::I32Const(3),
            Instruction::Call(3),
            Instruction::I32Const(1),
            Instruction::I32Const(2),
            Instruction::I32Const(3),
            Instruction::End,
        ]
    );
}

#[test]
fn charge_routine_carries_precomputed_overhead() {
    let m = inject(small_module(), &flat_rules(), "env").expect("injection succeeds");
    let routine = &m.functions[1];
    // (i32) -> () signature appended at type index 2, one extra i64 local.
    assert_eq!(routine.type_index, 2);
    assert_eq!(routine.locals, vec![ValType::I64]);
    // Overhead under these rules: the routine's own I64Const (cost 1) plus
    // the I32Const pushing the operand (cost 1).
    assert_eq!(routine.body[3], Instruction::I64Const(2));
    // The routine calls the trap imports at indices 0 and 1.
    assert_eq!(routine.body[8], Instruction::Call(0));
    assert_eq!(routine.body[19], Instruction::Call(1));
    assert_eq!(routine.body[9], Instruction::Unreachable);
}

#[test]
fn reinjection_fails_and_returns_module_unchanged() {
    let first = inject(small_module(), &flat_rules(), "env").expect("injection succeeds");
    let copy = first.clone();
    let second = inject(first, &flat_rules(), "env");
    assert_eq!(second, Err(copy));
}

#[test]
fn module_exporting_reserved_name_is_rejected_unchanged() {
    let mut m = small_module();
    m.exports.push(ExportEntry { field: "gear_gas".to_string(), kind: ExportKind::Func(0) });
    let copy = m.clone();
    assert_eq!(inject(m, &flat_rules(), "env"), Err(copy));
}

#[test]
fn module_importing_trap_name_is_rejected_unchanged() {
    let mut m = small_module();
    m.imports.push(ImportEntry {
        module: "env".to_string(),
        field: "out_of_gas".to_string(),
        kind: ImportKind::Func(0),
    });
    let copy = m.clone();
    assert_eq!(inject(m, &flat_rules(), "env"), Err(copy));
    // The same import under another namespace does not trip the check.
    let mut m2 = small_module();
    m2.imports.push(ImportEntry {
        module: "other".to_string(),
        field: "out_of_gas".to_string(),
        kind: ImportKind::Func(0),
    });
    assert!(inject(m2, &flat_rules(), "env").is_ok());
}

#[test]
fn failed_cost_lookup_aborts_injection() {
    let mut rules = flat_rules();
    rules.const_cost = None;
    let r = inject(small_module(), &rules, "env");
    let failed = r.expect_err("malformed rules abort injection");
    // The payload is the explicitly failed module: prelude added, nothing
    // metered, no synthesized routine.
    assert_eq!(failed.imports.len(), 2);
    assert_eq!(failed.globals.len(), 2);
    assert_eq!(failed.functions.len(), 1);
    assert_eq!(failed.functions[0].body, small_module().functions[0].body);
}

#[test]
fn block_cost_above_u32_aborts_injection() {
    let rules = CostRules {
        const_cost: Some(u32::MAX),
        arith_cost: Some(0),
        local_cost: Some(0),
        global_cost: Some(0),
        control_cost: Some(0),
        call_cost: Some(0),
        call_per_local: 0,
    };
    // Two maximal-cost constants in one branch-free run exceed the 32-bit
    // immediate of the charging routine.
    let r = inject(small_module(), &rules, "env");
    let failed = r.expect_err("oversized block cost aborts injection");
    // The synthesized routine was appended before metering failed.
    assert_eq!(failed.functions.len(), 2);
    assert_eq!(failed.functions[0].body, small_module().functions[0].body);
}

#[test]
fn call_targets_shift_past_new_imports() {
    let mut m = small_module();
    m.imports.push(ImportEntry {
        module: "env".to_string(),
        field: "alloc".to_string(),
        kind: ImportKind::Func(0),
    });
    m.functions[0].body = vec![
        Instruction::Call(0),
        Instruction::Call(1),
        Instruction::End,
    ];
    let injected = inject(m, &flat_rules(), "env").expect("injection succeeds");
    // The imported function keeps index 0; the defined function moves from
    // 1 to 3 (two trap imports inserted after the existing import).
    assert_eq!(
        injected.functions[0].body,
        vec![
            Instruction::I32Const(0),
            Instruction::Call(4),
            Instruction::Call(0),
            Instruction::Call(3),
            Instruction::End,
        ]
    );
}
