use wasm_metering::charge::GasCounters;
use wasm_metering::env::{EnvError, Environment, Resolution, host_trap};
use wasm_metering::ext::{LazyPagesExt, ProcessorContext, ProcessorError, RuntimeWeights};
use wasm_metering::module::{
    ExportEntry, ExportKind, Func, FuncType, ImportEntry, ImportKind, Instruction, Module,
};

fn context(gas: u64, allowance: u64) -> ProcessorContext {
    ProcessorContext {
        counters: GasCounters { gas, allowance },
        program_id: 7,
        message_id: 11,
        msg_source: 13,
        origin: 17,
        value: 0,
        value_available: 0,
        block_height: 1,
        block_timestamp: 1000,
        random_payload: vec![1, 2, 3],
        incoming_payload: vec![],
        reply_to_id: None,
        forbidden: vec![],
        weights: RuntimeWeights { base: 0, alloc: 0, free: 0, send: 0, reply: 0 },
        static_pages: 0,
        max_pages: 16,
    }
}

fn import(module: &str, field: &str) -> ImportEntry {
    ImportEntry {
        module: module.to_string(),
        field: field.to_string(),
        kind: ImportKind::Func(0),
    }
}

/// A module instrumented by hand: the entry function charges one block of
/// cost 5 against the charging routine at function index 1, whose 64-bit
/// immediate (the per-call overhead) is zero.
fn metered_module() -> Module {
    Module {
        types: vec![FuncType { params: vec![], result: None }],
        imports: vec![],
        functions: vec![
            Func {
                type_index: 0,
                locals: vec![],
                body: vec![
                    Instruction::I32Const(5),
                    Instruction::Call(1),
                    Instruction::Nop,
                    Instruction::End,
                ],
            },
            Func {
                type_index: 0,
                locals: vec![],
                body: vec![
                    Instruction::GetGlobal(0),
                    Instruction::GetLocal(0),
                    Instruction::I64ExtendUI32,
                    Instruction::I64Const(0),
                    Instruction::I64Add,
                    Instruction::End,
                ],
            },
        ],
        globals: vec![],
        exports: vec![ExportEntry { field: "run".to_string(), kind: ExportKind::Func(0) }],
    }
}

#[test]
fn host_table_holds_the_closed_name_set() {
    let env = Environment::new();
    let imports = vec![
        import("env", "alloc"),
        import("env", "free"),
        import("env", "gas"),
        import("env", "gr_commit"),
        import("env", "gr_charge"),
        import("env", "gr_debug"),
        import("env", "gr_init"),
        import("env", "gr_msg_id"),
        import("env", "gr_push"),
        import("env", "gr_push_reply"),
        import("env", "gr_read"),
        import("env", "gr_reply"),
        import("env", "gr_reply_to"),
        import("env", "gr_send"),
        import("env", "gr_size"),
        import("env", "gr_source"),
        import("env", "gr_value"),
        import("env", "memory"),
    ];
    let res = env.resolve_imports(&imports).expect("all names resolve");
    assert_eq!(res.len(), 18);
    assert_eq!(res[0], Resolution::HostFunc(0));
    assert_eq!(res[17], Resolution::Memory);
}

#[test]
fn unknown_import_name_fails_resolution() {
    let env = Environment::new();
    let imports = vec![import("env", "alloc"), import("env", "unknown_fn")];
    assert_eq!(env.resolve_imports(&imports), Err(EnvError::UnresolvedImport));
}

#[test]
fn non_env_namespace_fails_resolution() {
    let env = Environment::new();
    let imports = vec![import("wasi", "alloc")];
    assert_eq!(env.resolve_imports(&imports), Err(EnvError::NonEnvImport));
}

#[test]
fn unresolved_import_aborts_before_any_run() {
    let mut env = Environment::new();
    let mut module = metered_module();
    module.imports.push(import("env", "alloc"));
    module.imports.push(import("env", "unknown_fn"));
    let mut memory = env.create_memory(1);
    let ext = LazyPagesExt::new(context(100, 100));
    let (r, back) = env.setup_and_run(ext, &module, &vec![], &mut memory, "run");
    assert_eq!(r, Err(EnvError::UnresolvedImport));
    // Nothing was charged: the state comes back untouched.
    assert_eq!(back.context.counters, GasCounters { gas: 100, allowance: 100 });
}

#[test]
fn run_with_exact_gas_succeeds_and_zeroes_the_counter() {
    let mut env = Environment::new();
    let mut memory = env.create_memory(1);
    let ext = LazyPagesExt::new(context(5, 100));
    let (r, back) = env.setup_and_run(ext, &metered_module(), &vec![], &mut memory, "run");
    assert_eq!(r, Ok(()));
    assert_eq!(back.context.counters, GasCounters { gas: 0, allowance: 95 });
}

#[test]
fn run_with_insufficient_gas_traps_without_decrement() {
    let mut env = Environment::new();
    let mut memory = env.create_memory(1);
    let ext = LazyPagesExt::new(context(4, 100));
    let (r, back) = env.setup_and_run(ext, &metered_module(), &vec![], &mut memory, "run");
    assert_eq!(r, Err(EnvError::OutOfGasTrap));
    assert_eq!(back.context.counters, GasCounters { gas: 4, allowance: 100 });
}

#[test]
fn exhausted_allowance_traps_after_gas_was_charged() {
    let mut env = Environment::new();
    let mut memory = env.create_memory(1);
    let ext = LazyPagesExt::new(context(100, 4));
    let (r, back) = env.setup_and_run(ext, &metered_module(), &vec![], &mut memory, "run");
    assert_eq!(r, Err(EnvError::OutOfAllowanceTrap));
    assert_eq!(back.context.counters, GasCounters { gas: 95, allowance: 4 });
}

#[test]
fn missing_entry_point_is_reported_not_trapped() {
    let mut env = Environment::new();
    let mut memory = env.create_memory(1);
    let ext = LazyPagesExt::new(context(100, 100));
    let (r, back) = env.setup_and_run(ext, &metered_module(), &vec![], &mut memory, "absent");
    assert_eq!(r, Err(EnvError::MissingEntry));
    assert_eq!(back.context.counters, GasCounters { gas: 100, allowance: 100 });
}

#[test]
fn entry_with_arguments_is_rejected() {
    let mut env = Environment::new();
    let mut module = metered_module();
    module.types.push(FuncType {
        params: vec![wasm_metering::module::ValType::I32],
        result: None,
    });
    module.functions[0].type_index = 1;
    let mut memory = env.create_memory(1);
    let ext = LazyPagesExt::new(context(100, 100));
    let (r, _) = env.setup_and_run(ext, &module, &vec![], &mut memory, "run");
    assert_eq!(r, Err(EnvError::InvalidEntrySignature));
}

#[test]
fn initial_pages_are_loaded_before_the_run() {
    let mut env = Environment::new();
    let mut memory = env.create_memory(2);
    let page: Vec<u8> = (0..4096).map(|i| (i % 251) as u8).collect();
    let ext = LazyPagesExt::new(context(100, 100));
    let (r, _) =
        env.setup_and_run(ext, &metered_module(), &vec![(1, page.clone())], &mut memory, "run");
    assert_eq!(r, Ok(()));
    assert_eq!(memory.page_content(1), page);
    assert_eq!(memory.read_byte(0, 0), 0);
}

#[test]
fn domain_errors_become_traps_at_the_host_boundary() {
    assert_eq!(host_trap(ProcessorError::GasLimitExceeded), EnvError::OutOfGasTrap);
    assert_eq!(host_trap(ProcessorError::GasAllowanceExceeded), EnvError::OutOfAllowanceTrap);
    assert_eq!(
        host_trap(ProcessorError::InvalidHandle),
        EnvError::HostTrap(ProcessorError::InvalidHandle)
    );
    assert_eq!(
        host_trap(ProcessorError::ZeroDuration),
        EnvError::HostTrap(ProcessorError::ZeroDuration)
    );
}

#[test]
fn out_of_range_initial_page_fails() {
    let mut env = Environment::new();
    let mut memory = env.create_memory(1);
    let ext = LazyPagesExt::new(context(100, 100));
    let (r, back) =
        env.setup_and_run(ext, &metered_module(), &vec![(3, vec![0u8; 4096])], &mut memory, "run");
    assert_eq!(r, Err(EnvError::InvalidMemoryPage(3)));
    assert_eq!(back.context.counters, GasCounters { gas: 100, allowance: 100 });
}
