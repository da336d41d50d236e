use wasm_metering::lazy::{
    GlobalsConfig, LazyGrowHandler, LazyPages, LazyPagesWeights, MemoryInterval,
};
use wasm_metering::memory::{GuestMemory, PAGE_SIZE};

fn cfg() -> GlobalsConfig {
    GlobalsConfig { gas_global_index: 0, allowance_global_index: 1 }
}

fn weights() -> LazyPagesWeights {
    LazyPagesWeights { signal_read: 1, signal_write: 2 }
}

#[test]
fn growth_preserves_prior_content_at_logical_offsets() {
    let mut mem = GuestMemory::new(2);
    mem.write_byte(0, 17, 0xAB);
    mem.write_byte(1, 4095, 0xCD);
    mem.grow(3);
    assert_eq!(mem.size(), 5);
    // Previously touched pages keep their content where it was.
    assert_eq!(mem.read_byte(0, 17), 0xAB);
    assert_eq!(mem.read_byte(1, 4095), 0xCD);
    assert_eq!(mem.read_byte(0, 16), 0);
    // Newly allocated pages are zeroed.
    assert_eq!(mem.read_byte(4, 0), 0);
    assert_eq!(mem.page_content(2), vec![0u8; PAGE_SIZE]);
}

#[test]
fn growth_keeps_released_pages_accessible() {
    let mut mem = GuestMemory::new(2);
    let mut lazy = LazyPages::new();
    lazy.init_for_program(&mem, 1, 0, cfg(), weights());
    let reads = vec![MemoryInterval { offset: 4096, size: 1 }];
    lazy.pre_process_memory_accesses(&reads, &vec![]).expect("in range");
    assert_eq!(lazy.get_released_pages(), vec![1]);

    // Two-phase growth: protections dropped, memory grown, protections
    // recomputed over the new range; released state survives.
    let h = LazyGrowHandler::before_grow_action(&mut lazy, &mem);
    assert!(!lazy.active);
    mem.grow(2);
    h.after_grow_action(&mut lazy, &mem);
    assert!(lazy.active);
    assert_eq!(lazy.total_pages, 4);
    assert_eq!(lazy.get_released_pages(), vec![1]);
}

#[test]
fn untouched_pages_are_absent_from_the_released_set() {
    let mem = GuestMemory::new(4);
    let mut lazy = LazyPages::new();
    lazy.init_for_program(&mem, 1, 0, cfg(), weights());
    let writes = vec![MemoryInterval { offset: 2 * 4096, size: 10 }];
    lazy.pre_process_memory_accesses(&vec![], &writes).expect("in range");
    // Only page 2 was touched; 0, 1 and 3 are absent.
    assert_eq!(lazy.get_released_pages(), vec![2]);
}

#[test]
fn interval_spanning_pages_releases_each_of_them() {
    let mem = GuestMemory::new(4);
    let mut lazy = LazyPages::new();
    lazy.init_for_program(&mem, 1, 0, cfg(), weights());
    // Bytes 4000..8200 touch pages 0, 1 and 2.
    let reads = vec![MemoryInterval { offset: 4000, size: 4200 }];
    lazy.pre_process_memory_accesses(&reads, &vec![]).expect("in range");
    assert_eq!(lazy.get_released_pages(), vec![0, 1, 2]);
}

#[test]
fn out_of_range_access_fails_and_releases_nothing() {
    let mem = GuestMemory::new(2);
    let mut lazy = LazyPages::new();
    lazy.init_for_program(&mem, 1, 0, cfg(), weights());
    let reads = vec![MemoryInterval { offset: 4096, size: 1 }];
    let writes = vec![MemoryInterval { offset: 2 * 4096 - 1, size: 2 }];
    let r = lazy.pre_process_memory_accesses(&reads, &writes);
    assert!(r.is_err());
    assert_eq!(lazy.get_released_pages(), vec![]);
}

#[test]
fn pages_below_stack_end_are_not_tracked() {
    let mem = GuestMemory::new(4);
    let mut lazy = LazyPages::new();
    lazy.init_for_program(&mem, 1, 2, cfg(), weights());
    let reads = vec![
        MemoryInterval { offset: 0, size: 4096 },
        MemoryInterval { offset: 3 * 4096, size: 8 },
    ];
    lazy.pre_process_memory_accesses(&reads, &vec![]).expect("in range");
    // Page 0 lies below the stack boundary: eagerly materialized, never
    // recorded. Page 3 is tracked.
    assert_eq!(lazy.get_released_pages(), vec![3]);
}

#[test]
fn teardown_clears_protection_but_keeps_the_released_set() {
    let mem = GuestMemory::new(2);
    let mut lazy = LazyPages::new();
    lazy.init_for_program(&mem, 1, 0, cfg(), weights());
    let reads = vec![MemoryInterval { offset: 0, size: 1 }];
    lazy.pre_process_memory_accesses(&reads, &vec![]).expect("in range");
    lazy.remove_lazy_pages_prot();
    assert!(!lazy.initialized);
    assert!(!lazy.active);
    assert_eq!(lazy.get_released_pages(), vec![0]);
    // Torn down, the next program can be bound afresh.
    lazy.init_for_program(&mem, 2, 0, cfg(), weights());
    assert_eq!(lazy.get_released_pages(), vec![]);
}
