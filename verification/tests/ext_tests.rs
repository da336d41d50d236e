use wasm_metering::charge::GasCounters;
use wasm_metering::ext::{
    LazyPagesExt, ProcessorContext, ProcessorError, RuntimeCosts, RuntimeWeights,
};
use wasm_metering::lazy::{GlobalsConfig, LazyPages, LazyPagesWeights, MemoryInterval};
use wasm_metering::memory::GuestMemory;

fn context(gas: u64) -> ProcessorContext {
    ProcessorContext {
        counters: GasCounters { gas, allowance: 1_000 },
        program_id: 7,
        message_id: 11,
        msg_source: 13,
        origin: 17,
        value: 21,
        value_available: 42,
        block_height: 3,
        block_timestamp: 9999,
        random_payload: vec![9, 9, 9],
        incoming_payload: vec![10, 20, 30, 40],
        reply_to_id: Some(77),
        forbidden: vec!["gr_send".to_string()],
        weights: RuntimeWeights { base: 2, alloc: 3, free: 4, send: 5, reply: 6 },
        static_pages: 1,
        max_pages: 4,
    }
}

#[test]
fn charge_gas_fails_exactly_when_insufficient() {
    let mut e = LazyPagesExt::new(context(10));
    assert_eq!(e.charge_gas(4), Ok(()));
    assert_eq!(e.charge_gas(7), Err(ProcessorError::GasLimitExceeded));
    assert_eq!(e.counters(), (6, 1_000));
    assert_eq!(e.charge_gas(6), Ok(()));
    assert_eq!(e.gas_available(), 0);
}

#[test]
fn charge_gas_runtime_uses_the_weight_table() {
    let mut e = LazyPagesExt::new(context(10));
    assert_eq!(e.runtime_cost(RuntimeCosts::Send), 5);
    assert_eq!(e.charge_gas_runtime(RuntimeCosts::Send), Ok(()));
    assert_eq!(e.gas_available(), 5);
    assert_eq!(e.charge_gas_runtime(RuntimeCosts::Reply), Err(ProcessorError::GasLimitExceeded));
    assert_eq!(e.gas_available(), 5);
}

#[test]
fn update_counters_synchronizes_both() {
    let mut e = LazyPagesExt::new(context(10));
    e.update_counters(123, 456);
    assert_eq!(e.counters(), (123, 456));
    assert_eq!(e.gas_amount(), GasCounters { gas: 123, allowance: 456 });
}

#[test]
fn accessors_surface_context_fields() {
    let mut e = LazyPagesExt::new(context(10));
    assert_eq!(e.source(), 13);
    assert_eq!(e.origin(), 17);
    assert_eq!(e.program_id(), 7);
    assert_eq!(e.message_id(), 11);
    assert_eq!(e.value(), 21);
    assert_eq!(e.value_available(), 42);
    assert_eq!(e.block_height(), 3);
    assert_eq!(e.block_timestamp(), 9999);
    let (payload, bn) = e.random();
    assert_eq!(payload, &vec![9, 9, 9]);
    assert_eq!(bn, 3);
    assert_eq!(e.forbidden_funcs(), &vec!["gr_send".to_string()]);
    assert_eq!(e.out_of_gas(), ProcessorError::GasLimitExceeded);
    assert_eq!(e.out_of_allowance(), ProcessorError::GasAllowanceExceeded);
}

#[test]
fn incoming_payload_is_read_within_bounds() {
    let e = LazyPagesExt::new(context(10));
    assert_eq!(e.size(), 4);
    assert_eq!(e.read(1, 2), Ok(vec![20, 30]));
    assert_eq!(e.read(0, 4), Ok(vec![10, 20, 30, 40]));
    assert_eq!(e.read(4, 0), Ok(vec![]));
    assert_eq!(e.read(3, 2), Err(ProcessorError::ReadOutOfBounds));
    assert_eq!(e.read(5, 0), Err(ProcessorError::ReadOutOfBounds));
    assert_eq!(e.reply_to(), Ok(77));
}

#[test]
fn alloc_grows_memory_and_records_the_allocation() {
    let mut e = LazyPagesExt::new(context(10));
    let mut mem = GuestMemory::new(1);
    mem.write_byte(0, 5, 77);
    let mut lazy = LazyPages::new();
    lazy.init_for_program(&mem, 7, 0, GlobalsConfig { gas_global_index: 0, allowance_global_index: 1 }, LazyPagesWeights { signal_read: 0, signal_write: 0 });
    let start = e.alloc_pages(2, &mut mem, &mut lazy).expect("within maximum");
    assert_eq!(start, 1);
    assert_eq!(mem.size(), 3);
    // Prior content survives the growth.
    assert_eq!(mem.read_byte(0, 5), 77);
    assert_eq!(e.allocations, vec![1, 2]);
    assert!(lazy.active);
    // Growing past the configured maximum fails without changing anything.
    assert_eq!(e.alloc_pages(2, &mut mem, &mut lazy), Err(ProcessorError::OutOfMemory));
    assert_eq!(mem.size(), 3);
    assert_eq!(e.allocations, vec![1, 2]);
}

#[test]
fn free_rejects_pages_never_allocated() {
    let mut e = LazyPagesExt::new(context(10));
    let mut mem = GuestMemory::new(1);
    let mut lazy = LazyPages::new();
    lazy.init_for_program(&mem, 7, 0, GlobalsConfig { gas_global_index: 0, allowance_global_index: 1 }, LazyPagesWeights { signal_read: 0, signal_write: 0 });
    e.alloc_pages(2, &mut mem, &mut lazy).expect("within maximum");
    assert_eq!(e.free(2), Ok(()));
    assert_eq!(e.allocations, vec![1]);
    assert_eq!(e.free(2), Err(ProcessorError::InvalidFree));
    assert_eq!(e.free(0), Err(ProcessorError::InvalidFree));
}

#[test]
fn send_flow_builds_and_commits_one_message() {
    let mut e = LazyPagesExt::new(context(10));
    let h = e.send_init().expect("handle");
    assert_eq!(h, 0);
    assert_eq!(e.send_push(h, &vec![1, 2]), Ok(()));
    assert_eq!(e.send_push(h, &vec![3]), Ok(()));
    let id = e.send_commit(h, 5).expect("commit");
    assert_eq!(id, 0);
    assert_eq!(e.outgoing[0].payload, vec![1, 2, 3]);
    assert!(e.outgoing[0].committed);
    assert_eq!(e.outgoing[0].delay, 5);
    // A committed handle takes no further pushes or commits.
    assert_eq!(e.send_push(h, &vec![4]), Err(ProcessorError::InvalidHandle));
    assert_eq!(e.send_commit(h, 0), Err(ProcessorError::InvalidHandle));
    // An unknown handle is rejected outright.
    assert_eq!(e.send_push(9, &vec![4]), Err(ProcessorError::InvalidHandle));
}

#[test]
fn reply_flow_commits_at_most_once() {
    let mut e = LazyPagesExt::new(context(10));
    assert_eq!(e.reply_push(&vec![7, 8]), Ok(()));
    let id = e.reply_commit(2).expect("reply");
    assert_eq!(id, 0);
    assert_eq!(e.reply_payload, vec![7, 8]);
    assert_eq!(e.reply_push(&vec![9]), Err(ProcessorError::DuplicateReply));
    assert_eq!(e.reply_commit(0), Err(ProcessorError::DuplicateReply));
}

#[test]
fn message_identifiers_are_distinct_across_commits() {
    let mut e = LazyPagesExt::new(context(10));
    let h0 = e.send_init().expect("handle");
    let h1 = e.send_init().expect("handle");
    let id0 = e.send_commit(h0, 0).expect("commit");
    let id1 = e.send_commit(h1, 0).expect("commit");
    let id2 = e.reply_commit(0).expect("reply");
    assert!(id0 != id1 && id1 != id2 && id0 != id2);
}

#[test]
fn reservations_round_trip_gas() {
    let mut e = LazyPagesExt::new(context(10));
    let id = e.reserve_gas(6, 3).expect("reserved");
    assert_eq!(e.gas_available(), 4);
    assert_eq!(e.reserve_gas(5, 1), Err(ProcessorError::GasLimitExceeded));
    assert_eq!(e.unreserve_gas(id), Ok(6));
    assert_eq!(e.gas_available(), 10);
    assert_eq!(e.unreserve_gas(id), Err(ProcessorError::UnknownReservation));
}

#[test]
fn system_reserve_moves_gas_aside() {
    let mut e = LazyPagesExt::new(context(10));
    assert_eq!(e.system_reserve_gas(4), Ok(()));
    assert_eq!(e.gas_available(), 6);
    assert_eq!(e.system_reserved, 4);
    assert_eq!(e.system_reserve_gas(7), Err(ProcessorError::GasLimitExceeded));
}

#[test]
fn waits_and_wakes_are_recorded() {
    let mut e = LazyPagesExt::new(context(10));
    assert_eq!(e.wait_for(0), Err(ProcessorError::ZeroDuration));
    assert_eq!(e.wait_for(3), Ok(()));
    assert_eq!(e.wait_up_to(0), Err(ProcessorError::ZeroDuration));
    assert_eq!(e.wait_up_to(9), Ok(true));
    assert_eq!(e.wait(), Ok(()));
    assert_eq!(e.wake(42, 1), Ok(()));
    assert_eq!(e.wake(43, 0), Ok(()));
    assert_eq!(e.woken, vec![(42, 1), (43, 0)]);
}

#[test]
fn extraction_holds_touched_kept_pages_with_final_content() {
    let mut e = LazyPagesExt::new(context(10));
    let mut mem = GuestMemory::new(4);
    let mut lazy = LazyPages::new();
    lazy.init_for_program(&mem, 7, 0, GlobalsConfig { gas_global_index: 0, allowance_global_index: 1 }, LazyPagesWeights { signal_read: 0, signal_write: 0 });
    // Touch pages 0 (static) and 2; page 2 is outside any allocation.
    let writes = vec![
        MemoryInterval { offset: 10, size: 4 },
        MemoryInterval { offset: 2 * 4096, size: 4 },
    ];
    lazy.pre_process_memory_accesses(&vec![], &writes).expect("in range");
    mem.write_byte(0, 10, 0xEE);
    mem.write_byte(2, 0, 0xFF);
    let info = e.into_ext_info(&mem, &lazy);
    // static_pages is 1 and nothing was allocated: page 0 is kept, page 2
    // dropped, pages 1 and 3 were never touched and are absent.
    assert_eq!(info.accessed_pages.len(), 1);
    assert_eq!(info.accessed_pages[0].0, 0);
    assert_eq!(info.accessed_pages[0].1[10], 0xEE);
    assert_eq!(info.counters, GasCounters { gas: 10, allowance: 1_000 });
}

#[test]
fn extraction_keeps_allocated_pages() {
    let mut e = LazyPagesExt::new(context(10));
    let mut mem = GuestMemory::new(1);
    let mut lazy = LazyPages::new();
    lazy.init_for_program(&mem, 7, 0, GlobalsConfig { gas_global_index: 0, allowance_global_index: 1 }, LazyPagesWeights { signal_read: 0, signal_write: 0 });
    e.alloc_pages(2, &mut mem, &mut lazy).expect("within maximum");
    let writes = vec![MemoryInterval { offset: 4096, size: 1 }];
    lazy.pre_process_memory_accesses(&vec![], &writes).expect("in range");
    mem.write_byte(1, 0, 0x5A);
    let info = e.into_ext_info(&mem, &lazy);
    assert_eq!(info.accessed_pages.len(), 1);
    assert_eq!(info.accessed_pages[0].0, 1);
    assert_eq!(info.accessed_pages[0].1[0], 0x5A);
}
