//! Host environment: owns the host-function table and the deferred
//! external-state cell, resolves a module's imports against the table plus
//! the memory import, loads initial page contents, and drives one bounded
//! execution of a named zero-argument entry point. The state cell is
//! populated only for the duration of one run and always released, so the
//! caller gets the (possibly mutated) external state back even on a trap.

use vstd::prelude::*;
use crate::charge::{ChargeOutcome, GasCounters, RunReport, run_blocks, spec_run};
use crate::ext::LazyPagesExt;
use crate::memory::{GuestMemory, PAGE_SIZE};
use crate::module::{
    ExportEntryV, ExportKind, FuncType, FuncTypeV, ImportEntry, ImportEntryV, Instruction, Module,
    ModuleV, ValType, func_import_count, spec_func_imports,
};

verus! {

/// One registered host function: its import name and its signature, drawn
/// from a small closed set of integer-only shapes.
pub struct HostFuncEntry {
    pub name: String,
    pub sig: FuncType,
}

/// Mathematical image of a `HostFuncEntry`.
#[verifier::ext_equal]
pub struct HostFuncEntryV {
    pub name: Seq<char>,
    pub sig: FuncTypeV,
}

impl View for HostFuncEntry {
    type V = HostFuncEntryV;

    open spec fn view(&self) -> HostFuncEntryV {
        HostFuncEntryV { name: self.name@, sig: self.sig@ }
    }
}

/// Single-slot holder for the external-state adapter. Host functions are
/// built before the concrete state exists and read this cell on every
/// invocation; it is empty before and after an execution, populated only
/// for its duration.
pub struct LaterExt {
    slot: Option<LazyPagesExt>,
}

impl LaterExt {
    /// The cell currently holds a state.
    pub closed spec fn spec_is_set(&self) -> bool {
        self.slot is Some
    }

    /// The held state.
    pub closed spec fn spec_get(&self) -> LazyPagesExt {
        self.slot->Some_0
    }

    /// An empty cell.
    pub fn new() -> (c: LaterExt)
        ensures
            !c.spec_is_set(),
    {
        LaterExt { slot: None }
    }

    /// Install the concrete state; the cell must be empty, so two
    /// executions cannot share it.
    pub fn set(&mut self, ext: LazyPagesExt)
        requires
            !old(self).spec_is_set(),
        ensures
            final(self).spec_is_set(),
            final(self).spec_get() == ext,
    {
        self.slot = Some(ext);
    }

    /// Clear the cell and hand the state back.
    pub fn unset(&mut self) -> (ext: LazyPagesExt)
        requires
            old(self).spec_is_set(),
        ensures
            !final(self).spec_is_set(),
            ext == old(self).spec_get(),
    {
        let e = self.slot.take();
        match e {
            Some(ext) => ext,
            None => unreached(),
        }
    }

    /// Charge the held state's counters for a sequence of metered blocks,
    /// as the instrumented code does when the entry point runs.
    pub fn run_charges(&mut self, costs: &Vec<u32>, overhead: u64) -> (r: RunReport)
        requires
            old(self).spec_is_set(),
            overhead <= u64::MAX - u32::MAX,
        ensures
            final(self).spec_is_set(),
            final(self).spec_get().context.counters == spec_run(
                old(self).spec_get().context.counters,
                costs@,
                overhead,
            ).0,
            r.executed as int == spec_run(old(self).spec_get().context.counters, costs@, overhead).1,
            r.outcome == spec_run(old(self).spec_get().context.counters, costs@, overhead).2,
            crate::ext::unchanged_but_counters(old(self).spec_get(), final(self).spec_get()),
    {
        let e = self.slot.take();
        let mut ext = match e {
            Some(ext) => ext,
            None => unreached(),
        };
        let mut gc: GasCounters = ext.context.counters;
        let r = run_blocks(&mut gc, costs, overhead);
        ext.context.counters = gc;
        self.slot = Some(ext);
        r
    }
}

/// How one import was resolved: to a host function of the table, or to the
/// provided memory object.
#[derive(Clone, Copy, Debug, PartialEq, Eq, Structural)]
pub enum Resolution {
    HostFunc(usize),
    Memory,
}

/// Failures of one environment run, from static module errors to the two
/// designed-for trap paths.
#[derive(Clone, Copy, Debug, PartialEq, Eq, Structural)]
pub enum EnvError {
    /// An import names a namespace other than `env`.
    NonEnvImport,
    /// An `env` import resolves neither to `memory` nor to a table entry.
    UnresolvedImport,
    /// An initial page lies outside the memory or has the wrong size.
    InvalidMemoryPage(u32),
    /// No export of the entry name designates a defined function.
    MissingEntry,
    /// The entry export is not a zero-argument, zero-result function.
    InvalidEntrySignature,
    /// Execution aborted through the out-of-gas trap import.
    OutOfGasTrap,
    /// Execution aborted through the out-of-allowance trap import.
    OutOfAllowanceTrap,
    /// A host function surfaced a domain error; execution terminates
    /// immediately with this trap.
    HostTrap(crate::ext::ProcessorError),
}

/// Convert a domain error a host function returned into the engine-level
/// trap that terminates the execution: the two accounting errors map to
/// their designed-for trap paths, every other error traps as itself.
pub fn host_trap(e: crate::ext::ProcessorError) -> (t: EnvError)
    ensures
        e == crate::ext::ProcessorError::GasLimitExceeded ==> t == EnvError::OutOfGasTrap,
        e == crate::ext::ProcessorError::GasAllowanceExceeded ==> t == EnvError::OutOfAllowanceTrap,
        e != crate::ext::ProcessorError::GasLimitExceeded && e
            != crate::ext::ProcessorError::GasAllowanceExceeded ==> t == EnvError::HostTrap(e),
{
    match e {
        crate::ext::ProcessorError::GasLimitExceeded => EnvError::OutOfGasTrap,
        crate::ext::ProcessorError::GasAllowanceExceeded => EnvError::OutOfAllowanceTrap,
        other => EnvError::HostTrap(other),
    }
}

/// A name resolves when it is `memory` or stands in the table.
pub open spec fn spec_name_resolves(table: Seq<HostFuncEntryV>, field: Seq<char>) -> bool {
    field == "memory"@ || exists|i: int| 0 <= i < table.len() && (#[trigger] table[i]).name == field
}

/// Every import uses the `env` namespace and a resolvable name.
pub open spec fn spec_imports_ok(table: Seq<HostFuncEntryV>, imports: Seq<ImportEntryV>) -> bool {
    forall|j: int|
        0 <= j < imports.len() ==> (#[trigger] imports[j]).module == "env"@ && spec_name_resolves(
            table,
            imports[j].field,
        )
}

/// Some import names a namespace other than `env`.
pub open spec fn spec_has_non_env(imports: Seq<ImportEntryV>) -> bool {
    exists|j: int| 0 <= j < imports.len() && (#[trigger] imports[j]).module != "env"@
}

fn find_host_func(funcs: &Vec<HostFuncEntry>, field: &String) -> (r: Option<usize>)
    ensures
        match r {
            Some(i) => i < funcs@.len() && funcs@[i as int]@.name == field@,
            None => forall|i: int| 0 <= i < funcs@.len() ==> (#[trigger] funcs@[i])@.name != field@,
        },
{
    let mut i: usize = 0;
    while i < funcs.len()
        invariant
            i <= funcs@.len(),
            forall|j: int| 0 <= j < i ==> (#[trigger] funcs@[j])@.name != field@,
        decreases funcs@.len() - i,
    {
        if funcs[i].name == *field {
            return Some(i);
        }
        i = i + 1;
    }
    None
}

/// The host-function table an environment registers once, before any
/// external state exists: name and signature of every host callable.
pub open spec fn spec_host_table() -> Seq<HostFuncEntryV> {
    seq![
        HostFuncEntryV {
            name: "alloc"@,
            sig: FuncTypeV { params: seq![ValType::I32], result: Some(ValType::I32) },
        },
        HostFuncEntryV {
            name: "free"@,
            sig: FuncTypeV { params: seq![ValType::I32], result: None },
        },
        HostFuncEntryV {
            name: "gas"@,
            sig: FuncTypeV { params: seq![ValType::I32], result: None },
        },
        HostFuncEntryV {
            name: "gr_commit"@,
            sig: FuncTypeV { params: seq![ValType::I32], result: None },
        },
        HostFuncEntryV {
            name: "gr_charge"@,
            sig: FuncTypeV { params: seq![ValType::I64], result: None },
        },
        HostFuncEntryV {
            name: "gr_debug"@,
            sig: FuncTypeV { params: seq![ValType::I32, ValType::I32], result: None },
        },
        HostFuncEntryV {
            name: "gr_init"@,
            sig: FuncTypeV {
                params: seq![ValType::I32, ValType::I32, ValType::I32, ValType::I64, ValType::I32],
                result: Some(ValType::I32),
            },
        },
        HostFuncEntryV {
            name: "gr_msg_id"@,
            sig: FuncTypeV { params: seq![ValType::I32], result: None },
        },
        HostFuncEntryV {
            name: "gr_push"@,
            sig: FuncTypeV { params: seq![ValType::I32, ValType::I32, ValType::I32], result: None },
        },
        HostFuncEntryV {
            name: "gr_push_reply"@,
            sig: FuncTypeV { params: seq![ValType::I32, ValType::I32], result: None },
        },
        HostFuncEntryV {
            name: "gr_read"@,
            sig: FuncTypeV { params: seq![ValType::I32, ValType::I32, ValType::I32], result: None },
        },
        HostFuncEntryV {
            name: "gr_reply"@,
            sig: FuncTypeV {
                params: seq![ValType::I32, ValType::I32, ValType::I64, ValType::I32],
                result: None,
            },
        },
        HostFuncEntryV {
            name: "gr_reply_to"@,
            sig: FuncTypeV { params: seq![ValType::I32], result: None },
        },
        HostFuncEntryV {
            name: "gr_send"@,
            sig: FuncTypeV {
                params: seq![ValType::I32, ValType::I32, ValType::I32, ValType::I64, ValType::I32],
                result: None,
            },
        },
        HostFuncEntryV {
            name: "gr_size"@,
            sig: FuncTypeV { params: Seq::empty(), result: Some(ValType::I32) },
        },
        HostFuncEntryV {
            name: "gr_source"@,
            sig: FuncTypeV { params: seq![ValType::I32], result: None },
        },
        HostFuncEntryV {
            name: "gr_value"@,
            sig: FuncTypeV { params: seq![ValType::I32], result: None },
        },
    ]
}

fn reg(funcs: &mut Vec<HostFuncEntry>, name: &str, params: Vec<ValType>, result: Option<ValType>)
    ensures
        final(funcs)@.len() == old(funcs)@.len() + 1,
        forall|j: int| 0 <= j < old(funcs)@.len() ==> final(funcs)@[j] == old(funcs)@[j],
        final(funcs)@.last()@ == (HostFuncEntryV {
            name: name@,
            sig: FuncTypeV { params: params@, result },
        }),
{
    funcs.push(HostFuncEntry { name: name.to_owned(), sig: FuncType { params, result } });
}

/// Environment to run one module at a time, providing the external-state
/// adapter to its host functions.
pub struct Environment {
    funcs: Vec<HostFuncEntry>,
    ext: LaterExt,
}

impl Environment {
    /// The registered host-function table.
    pub closed spec fn spec_funcs(&self) -> Seq<HostFuncEntryV> {
        self.funcs@.map_values(|e: HostFuncEntry| e@)
    }

    /// The deferred-state cell currently holds a state.
    pub closed spec fn spec_ext_set(&self) -> bool {
        self.ext.spec_is_set()
    }

    /// A new environment with the full host-function table registered and
    /// an empty state cell. Registration happens once, before any external
    /// state exists.
    pub fn new() -> (env: Environment)
        ensures
            env.spec_funcs() == spec_host_table(),
            !env.spec_ext_set(),
    {
        let mut funcs: Vec<HostFuncEntry> = Vec::new();
        let mut p: Vec<ValType> = Vec::new();
        p.push(ValType::I32);
        reg(&mut funcs, "alloc", p, Some(ValType::I32));
        let mut p: Vec<ValType> = Vec::new();
        p.push(ValType::I32);
        reg(&mut funcs, "free", p, None);
        let mut p: Vec<ValType> = Vec::new();
        p.push(ValType::I32);
        reg(&mut funcs, "gas", p, None);
        let mut p: Vec<ValType> = Vec::new();
        p.push(ValType::I32);
        reg(&mut funcs, "gr_commit", p, None);
        let mut p: Vec<ValType> = Vec::new();
        p.push(ValType::I64);
        reg(&mut funcs, "gr_charge", p, None);
        let mut p: Vec<ValType> = Vec::new();
        p.push(ValType::I32);
        p.push(ValType::I32);
        reg(&mut funcs, "gr_debug", p, None);
        let mut p: Vec<ValType> = Vec::new();
        p.push(ValType::I32);
        p.push(ValType::I32);
        p.push(ValType::I32);
        p.push(ValType::I64);
        p.push(ValType::I32);
        reg(&mut funcs, "gr_init", p, Some(ValType::I32));
        let mut p: Vec<ValType> = Vec::new();
        p.push(ValType::I32);
        reg(&mut funcs, "gr_msg_id", p, None);
        let mut p: Vec<ValType> = Vec::new();
        p.push(ValType::I32);
        p.push(ValType::I32);
        p.push(ValType::I32);
        reg(&mut funcs, "gr_push", p, None);
        let mut p: Vec<ValType> = Vec::new();
        p.push(ValType::I32);
        p.push(ValType::I32);
        reg(&mut funcs, "gr_push_reply", p, None);
        let mut p: Vec<ValType> = Vec::new();
        p.push(ValType::I32);
        p.push(ValType::I32);
        p.push(ValType::I32);
        reg(&mut funcs, "gr_read", p, None);
        let mut p: Vec<ValType> = Vec::new();
        p.push(ValType::I32);
        p.push(ValType::I32);
        p.push(ValType::I64);
        p.push(ValType::I32);
        reg(&mut funcs, "gr_reply", p, None);
        let mut p: Vec<ValType> = Vec::new();
        p.push(ValType::I32);
        reg(&mut funcs, "gr_reply_to", p, None);
        let mut p: Vec<ValType> = Vec::new();
        p.push(ValType::I32);
        p.push(ValType::I32);
        p.push(ValType::I32);
        p.push(ValType::I64);
        p.push(ValType::I32);
        reg(&mut funcs, "gr_send", p, None);
        let p: Vec<ValType> = Vec::new();
        reg(&mut funcs, "gr_size", p, Some(ValType::I32));
        let mut p: Vec<ValType> = Vec::new();
        p.push(ValType::I32);
        reg(&mut funcs, "gr_source", p, None);
        let mut p: Vec<ValType> = Vec::new();
        p.push(ValType::I32);
        reg(&mut funcs, "gr_value", p, None);
        let env = Environment { funcs, ext: LaterExt::new() };
        proof {
            assert(env.spec_funcs() =~~= spec_host_table());
        }
        env
    }

    /// Create a memory of `total_pages` zeroed pages inside this
    /// environment.
    pub fn create_memory(&self, total_pages: u32) -> (m: GuestMemory)
        ensures
            m.wf(),
            m@.len() == total_pages,
    {
        GuestMemory::new(total_pages)
    }

    /// Resolve every import of a module: only the `env` namespace is
    /// permitted, and every name must resolve either to the memory object
    /// or to a table entry. Any other namespace, checked first, or any
    /// unresolved name is a hard failure before instantiation.
    pub fn resolve_imports(&self, imports: &Vec<ImportEntry>) -> (r: Result<
        Vec<Resolution>,
        EnvError,
    >)
        ensures
            r is Ok <==> spec_imports_ok(
                self.spec_funcs(),
                imports@.map_values(|e: ImportEntry| e@),
            ),
            r == Err::<Vec<Resolution>, EnvError>(EnvError::NonEnvImport) <==> spec_has_non_env(
                imports@.map_values(|e: ImportEntry| e@),
            ),
            r matches Ok(res) ==> {
                &&& res@.len() == imports@.len()
                &&& forall|j: int|
                    0 <= j < imports@.len() ==> ((#[trigger] res@[j]) is Memory <==> imports@[j]@.field
                        == "memory"@)
                &&& forall|j: int|
                    0 <= j < imports@.len() ==> ((#[trigger] res@[j]) matches Resolution::HostFunc(i)
                        ==> i < self.spec_funcs().len() && self.spec_funcs()[i as int].name
                        == imports@[j]@.field)
            },
    {
        let ghost iv = imports@.map_values(|e: ImportEntry| e@);
        let env_name: String = "env".to_owned();
        let mut j: usize = 0;
        while j < imports.len()
            invariant
                j <= imports@.len(),
                iv == imports@.map_values(|e: ImportEntry| e@),
                env_name@ == "env"@,
                forall|i: int| 0 <= i < j ==> (#[trigger] iv[i]).module == "env"@,
            decreases imports@.len() - j,
        {
            if !(imports[j].module == env_name) {
                proof {
                    assert(iv[j as int].module != "env"@);
                }
                return Err(EnvError::NonEnvImport);
            }
            j = j + 1;
        }
        let memory_name: String = "memory".to_owned();
        let mut res: Vec<Resolution> = Vec::new();
        let mut k: usize = 0;
        while k < imports.len()
            invariant
                k <= imports@.len(),
                iv == imports@.map_values(|e: ImportEntry| e@),
                memory_name@ == "memory"@,
                res@.len() == k,
                forall|i: int| 0 <= i < imports@.len() ==> (#[trigger] iv[i]).module == "env"@,
                forall|i: int|
                    0 <= i < k ==> spec_name_resolves(self.spec_funcs(), (#[trigger] iv[i]).field),
                forall|i: int|
                    0 <= i < k ==> ((#[trigger] res@[i]) is Memory <==> iv[i].field == "memory"@),
                forall|i: int|
                    0 <= i < k ==> ((#[trigger] res@[i]) matches Resolution::HostFunc(f) ==> f
                        < self.spec_funcs().len() && self.spec_funcs()[f as int].name
                        == iv[i].field),
            decreases imports@.len() - k,
        {
            if imports[k].field == memory_name {
                res.push(Resolution::Memory);
            } else {
                match find_host_func(&self.funcs, &imports[k].field) {
                    Some(i) => {
                        proof {
                            assert(self.spec_funcs()[i as int].name == iv[k as int].field);
                        }
                        res.push(Resolution::HostFunc(i));
                    },
                    None => {
                        proof {
                            assert forall|i: int|
                                0 <= i < self.spec_funcs().len() implies (
                            #[trigger] self.spec_funcs()[i]).name != iv[k as int].field by {
                                assert(self.funcs@[i]@.name != imports@[k as int].field@);
                            }
                            assert(!spec_name_resolves(self.spec_funcs(), iv[k as int].field));
                        }
                        return Err(EnvError::UnresolvedImport);
                    },
                }
            }
            k = k + 1;
        }
        Ok(res)
    }
}

/// First export of the given name that designates a function, scanning
/// from position `i`.
pub open spec fn spec_find_entry_from(exports: Seq<ExportEntryV>, name: Seq<char>, i: int) -> Option<
    u32,
>
    decreases exports.len() - i,
{
    if i < 0 || i >= exports.len() {
        None
    } else if exports[i].field == name && exports[i].kind is Func {
        Some(exports[i].kind->Func_0)
    } else {
        spec_find_entry_from(exports, name, i + 1)
    }
}

/// The function index the entry-point export designates, if any.
pub open spec fn spec_find_entry(m: ModuleV, name: Seq<char>) -> Option<u32> {
    spec_find_entry_from(m.exports, name, 0)
}

/// The entry index names a defined function taking no arguments and
/// returning nothing.
pub open spec fn spec_entry_callable(m: ModuleV, f: u32) -> bool {
    let k = spec_func_imports(m.imports);
    &&& k <= f
    &&& f - k < m.functions.len()
    &&& m.functions[f - k].type_index < m.types.len()
    &&& m.types[m.functions[f - k].type_index as int].params.len() == 0
    &&& m.types[m.functions[f - k].type_index as int].result is None
}

/// The charge operands of an instrumented body: each cost pushed as a
/// 32-bit immediate directly before a call of the charging routine, in
/// order.
pub open spec fn spec_extract_charges(body: Seq<Instruction>, charge_idx: u32, i: int) -> Seq<u32>
    decreases body.len() - i,
{
    if i < 0 || i >= body.len() {
        Seq::empty()
    } else if i + 1 < body.len() && (body[i] matches Instruction::I32Const(_)) && body[i + 1]
        == Instruction::Call(charge_idx) {
        seq![body[i]->I32Const_0 as u32] + spec_extract_charges(body, charge_idx, i + 2)
    } else {
        spec_extract_charges(body, charge_idx, i + 1)
    }
}

/// The per-call overhead an instrumented charging routine carries as its
/// 64-bit immediate.
pub open spec fn spec_module_overhead(body: Seq<Instruction>) -> u64 {
    if body.len() > 3 && (body[3] matches Instruction::I64Const(_)) {
        body[3]->I64Const_0 as u64
    } else {
        0
    }
}

/// Overhead of a module's charging routine, the last defined function.
pub open spec fn spec_entry_overhead(m: ModuleV) -> u64 {
    if m.functions.len() > 0 {
        spec_module_overhead(m.functions.last().body)
    } else {
        0
    }
}

/// The metered-block costs charged when the entry function runs: its
/// charge operands, against the charging routine at the end of the
/// function space.
pub open spec fn spec_entry_costs(m: ModuleV, f: u32) -> Seq<u32> {
    let k = spec_func_imports(m.imports);
    let charge_idx = (k + m.functions.len() - 1) as u32;
    spec_extract_charges(m.functions[f - k].body, charge_idx, 0)
}

/// Every initial page lies inside the memory and holds one full page.
pub open spec fn spec_pages_ok(pairs: Seq<(u32, Vec<u8>)>, total: int) -> bool {
    forall|j: int|
        0 <= j < pairs.len() ==> (#[trigger] pairs[j]).0 < total && pairs[j].1@.len() == PAGE_SIZE
}

/// A page's content after the initial pages were applied in order: the
/// last buffer loaded at it, else its previous content.
pub open spec fn spec_loaded_page(memv: Seq<Seq<u8>>, pairs: Seq<(u32, Vec<u8>)>, p: int) -> Seq<u8>
    decreases pairs.len(),
{
    if pairs.len() == 0 {
        memv[p]
    } else if pairs.last().0 == p {
        pairs.last().1@
    } else {
        spec_loaded_page(memv, pairs.drop_last(), p)
    }
}

/// No element of the sequence calls the charging routine.
pub open spec fn spec_no_charge_call(s: Seq<Instruction>, ci: u32) -> bool {
    forall|p: int| 0 <= p < s.len() ==> s[p] != Instruction::Call(ci)
}

proof fn lemma_extract_none(s: Seq<Instruction>, ci: u32, j: int)
    requires
        forall|p: int| j + 1 <= p < s.len() ==> s[p] != Instruction::Call(ci),
    ensures
        spec_extract_charges(s, ci, j) == Seq::<u32>::empty(),
    decreases s.len() - j,
{
    if 0 <= j < s.len() {
        if j + 1 < s.len() {
            assert(s[j + 1] != Instruction::Call(ci));
        }
        lemma_extract_none(s, ci, j + 1);
    }
}

proof fn lemma_extract_shift(a: Seq<Instruction>, t: Seq<Instruction>, ci: u32, j: int)
    requires
        j >= a.len(),
    ensures
        spec_extract_charges(a + t, ci, j) == spec_extract_charges(t, ci, j - a.len()),
    decreases (a + t).len() - j,
{
    if 0 <= j < (a + t).len() {
        assert((a + t)[j] == t[j - a.len()]);
        if j + 1 < (a + t).len() && ((a + t)[j] matches Instruction::I32Const(_)) && (a + t)[j + 1]
            == Instruction::Call(ci) {
            assert((a + t)[j + 1] == t[j + 1 - a.len()]);
            lemma_extract_shift(a, t, ci, j + 2);
        } else {
            if j + 1 < (a + t).len() {
                assert((a + t)[j + 1] == t[j + 1 - a.len()]);
            }
            lemma_extract_shift(a, t, ci, j + 1);
        }
    }
}

proof fn lemma_extract_across(a: Seq<Instruction>, t: Seq<Instruction>, ci: u32, j: int)
    requires
        0 <= j <= a.len(),
        forall|p: int| j + 1 <= p < a.len() ==> a[p] != Instruction::Call(ci),
        t.len() > 0 ==> t[0] != Instruction::Call(ci),
    ensures
        spec_extract_charges(a + t, ci, j) == spec_extract_charges(t, ci, 0),
    decreases a.len() - j,
{
    if j == a.len() {
        lemma_extract_shift(a, t, ci, j);
    } else {
        if j + 1 < a.len() {
            assert((a + t)[j + 1] == a[j + 1]);
        } else if j + 1 < (a + t).len() {
            assert((a + t)[j + 1] == t[0]);
        }
        lemma_extract_across(a, t, ci, j + 1);
    }
}

proof fn lemma_meter_extract_acc(
    body: Seq<Instruction>,
    r: crate::rules::CostRules,
    charge_idx: u32,
    k: int,
    i: int,
    blk: Seq<Instruction>,
    cost: int,
)
    requires
        2 <= charge_idx,
        crate::module::spec_calls_below(body, charge_idx - 2),
        spec_no_charge_call(blk, charge_idx),
        0 <= cost,
        crate::inject::spec_meter_acc(body, r, charge_idx, k, i, blk, cost) is Some,
    ensures
        crate::inject::spec_block_costs_acc(body, r, i, blk.len() > 0, cost) is Some,
        spec_extract_charges(
            crate::inject::spec_meter_acc(body, r, charge_idx, k, i, blk, cost)->Some_0,
            charge_idx,
            0,
        ) == crate::inject::spec_block_costs_acc(body, r, i, blk.len() > 0, cost)->Some_0,
    decreases body.len() - i,
{
    let ci = charge_idx;
    if i < 0 || i >= body.len() {
        if blk.len() == 0 {
        } else {
            let cc = crate::inject::spec_charge_call(cost, ci);
            let o = cc + blk;
            assert(o[0] == cc[0]);
            assert(o[1] == cc[1]);
            assert(o + Seq::<Instruction>::empty() =~= o);
            assert forall|p: int| 3 <= p < o.len() implies o[p] != Instruction::Call(ci) by {
                assert(o[p] == blk[p - 2]);
            }
            lemma_extract_across(o, Seq::<Instruction>::empty(), ci, 2);
            lemma_extract_none(Seq::<Instruction>::empty(), ci, 0);
            let x: u32 = cost as u32;
            assert(((x as i32) as u32) == x) by (bit_vector);
            assert(spec_extract_charges(o, ci, 0) =~= seq![cost as u32]);
        }
    } else {
        match r.spec_instruction_cost(body[i]) {
            None => {},
            Some(c) => {
                let emitted = crate::inject::spec_remap_call(body[i], k);
                proof_remap_not_charge(body, ci, k, i);
                let blk2 = blk.push(emitted);
                assert forall|p: int| 0 <= p < blk2.len() implies blk2[p] != Instruction::Call(
                    ci,
                ) by {
                    if p < blk.len() {
                        assert(blk2[p] == blk[p]);
                    } else {
                        assert(blk2[p] == emitted);
                    }
                }
                let cost2 = cost + c;
                if crate::inject::spec_is_boundary(body[i]) {
                    let rest = crate::inject::spec_meter_acc(
                        body,
                        r,
                        ci,
                        k,
                        i + 1,
                        Seq::empty(),
                        0,
                    );
                    lemma_meter_extract_acc(body, r, ci, k, i + 1, Seq::empty(), 0);
                    crate::inject::lemma_meter_acc_head(body, r, ci, k, i + 1, Seq::empty(), 0);
                    let a = crate::inject::spec_charge_call(cost2, ci) + blk2;
                    let o = a + rest->Some_0;
                    assert(crate::inject::spec_meter_acc(body, r, ci, k, i, blk, cost)->Some_0
                        =~= o);
                    assert(o[0] == a[0]);
                    assert(o[1] == a[1]);
                    assert forall|p: int| 3 <= p < a.len() implies a[p] != Instruction::Call(
                        ci,
                    ) by {
                        assert(a[p] == blk2[p - 2]);
                    }
                    lemma_extract_across(a, rest->Some_0, ci, 2);
                    let x: u32 = cost2 as u32;
                    assert(((x as i32) as u32) == x) by (bit_vector);
                    assert(spec_extract_charges(o, ci, 0) =~= seq![cost2 as u32]
                        + spec_extract_charges(rest->Some_0, ci, 0));
                } else {
                    lemma_meter_extract_acc(body, r, ci, k, i + 1, blk2, cost2);
                }
            },
        }
    }
}

proof fn proof_remap_not_charge(body: Seq<Instruction>, ci: u32, k: int, i: int)
    requires
        0 <= i < body.len(),
        2 <= ci,
        crate::module::spec_calls_below(body, ci - 2),
    ensures
        crate::inject::spec_remap_call(body[i], k) != Instruction::Call(ci),
{
    match body[i] {
        Instruction::Call(f) => {
            assert(body[i] matches Instruction::Call(g) && g < ci - 2);
        },
        _ => {},
    }
}

/// An instrumented body charges exactly the statically computed costs of
/// its maximal branch-free runs, in order: the charge operands extracted
/// from a metered body are the body's block costs. The bound on call
/// targets holds of any module the injector accepts, whose charging
/// routine sits two indices past the original function space.
pub proof fn lemma_metered_body_charges_block_costs(
    body: Seq<Instruction>,
    r: crate::rules::CostRules,
    charge_idx: u32,
    k: int,
)
    requires
        2 <= charge_idx,
        crate::module::spec_calls_below(body, charge_idx - 2),
        crate::inject::spec_meter_body(body, r, charge_idx, k) is Some,
    ensures
        crate::inject::spec_block_costs(body, r) is Some,
        spec_extract_charges(
            crate::inject::spec_meter_body(body, r, charge_idx, k)->Some_0,
            charge_idx,
            0,
        ) == crate::inject::spec_block_costs(body, r)->Some_0,
{
    lemma_meter_extract_acc(body, r, charge_idx, k, 0, Seq::empty(), 0);
}

/// In a module the injector produced, every original function's metered
/// body charges exactly the statically computed costs of that function's
/// maximal branch-free runs, in order: running it with the environment
/// decrements the counters by those costs and no others.
pub proof fn lemma_injected_module_charges_static_costs(
    m: ModuleV,
    r: crate::rules::CostRules,
    gas_mod: Seq<char>,
    j: int,
)
    requires
        crate::inject::spec_inject(m, r, gas_mod) is Ok,
        0 <= j < m.functions.len(),
        crate::module::spec_calls_below(
            m.functions[j].body,
            crate::module::spec_functions_space(m),
        ),
        crate::module::spec_functions_space(m) + 3 <= u32::MAX,
    ensures
        crate::inject::spec_block_costs(m.functions[j].body, r) is Some,
        spec_entry_costs(
            crate::inject::spec_inject(m, r, gas_mod)->Ok_0,
            ((spec_func_imports(crate::inject::spec_inject(m, r, gas_mod)->Ok_0.imports) + j) as u32),
        ) == crate::inject::spec_block_costs(m.functions[j].body, r)->Some_0,
{
    let m2 = crate::inject::spec_inject(m, r, gas_mod)->Ok_0;
    let k = spec_func_imports(m.imports);
    let n = m.functions.len() as int;
    let charge_idx = (k + 2 + n) as u32;
    let pre = crate::inject::spec_prelude(m, gas_mod);
    crate::inject::lemma_func_imports_append_two(
        m.imports,
        pre.imports[m.imports.len() as int],
        pre.imports[m.imports.len() as int + 1],
    );
    assert(pre.imports =~= m.imports + seq![
        pre.imports[m.imports.len() as int],
        pre.imports[m.imports.len() as int + 1],
    ]);
    assert(spec_func_imports(m2.imports) == k + 2);
    let fs = crate::inject::spec_meter_functions(m.functions, r, charge_idx, k)->Some_0;
    crate::inject::lemma_meter_functions_len(m.functions, r, charge_idx, k, 0);
    crate::inject::lemma_meter_functions_index(m.functions, r, charge_idx, k, 0, j);
    assert(m2.functions[j] == fs[j]);
    crate::module::lemma_func_imports_nonneg(m.imports);
    lemma_metered_body_charges_block_costs(m.functions[j].body, r, charge_idx, k);
}

fn extract_charges(body: &Vec<Instruction>, charge_idx: u32) -> (r: Vec<u32>)
    ensures
        r@ == spec_extract_charges(body@, charge_idx, 0),
{
    let mut out: Vec<u32> = Vec::new();
    let mut i: usize = 0;
    while i < body.len()
        invariant
            i <= body@.len(),
            spec_extract_charges(body@, charge_idx, 0) == out@ + spec_extract_charges(
                body@,
                charge_idx,
                i as int,
            ),
        decreases body@.len() - i,
    {
        let ghost before = out@;
        let mut step: usize = 1;
        if i + 1 < body.len() {
            if let Instruction::I32Const(c) = body[i] {
                if let Instruction::Call(t) = body[i + 1] {
                    if t == charge_idx {
                        out.push(c as u32);
                        step = 2;
                        proof {
                            assert((before + seq![c as u32]) + spec_extract_charges(
                                body@,
                                charge_idx,
                                i as int + 2,
                            ) =~= before + (seq![c as u32] + spec_extract_charges(
                                body@,
                                charge_idx,
                                i as int + 2,
                            )));
                        }
                    }
                }
            }
        }
        i = i + step;
    }
    proof {
        assert(out@ + Seq::<u32>::empty() =~= out@);
    }
    out
}

impl Environment {
    /// Set up the external state and run one execution: bind the state
    /// into the deferred cell, resolve imports, load the initial page
    /// contents, locate the named zero-argument entry point, and charge the
    /// entry function's metered blocks against the state's counters until
    /// they are exhausted or the run completes. Whatever happens, the cell
    /// is cleared and the (possibly mutated) external state handed back, so
    /// work already charged before a fault remains visible and billable.
    pub fn setup_and_run(
        &mut self,
        ext: LazyPagesExt,
        module: &Module,
        memory_pages: &Vec<(u32, Vec<u8>)>,
        memory: &mut GuestMemory,
        entry_point: &str,
    ) -> (r: (Result<(), EnvError>, LazyPagesExt))
        requires
            !old(self).spec_ext_set(),
            old(memory).wf(),
            spec_entry_overhead(module@) <= u64::MAX - u32::MAX,
            crate::module::spec_functions_space(module@) <= u32::MAX,
        ensures
            !final(self).spec_ext_set(),
            final(self).spec_funcs() == old(self).spec_funcs(),
            final(memory).wf(),
            final(memory)@.len() == old(memory)@.len(),
            !spec_imports_ok(
                old(self).spec_funcs(),
                module@.imports,
            ) ==> r.0 is Err && r.1 == ext && *final(memory) == *old(memory),
            spec_imports_ok(old(self).spec_funcs(), module@.imports) && !spec_pages_ok(
                memory_pages@,
                old(memory)@.len() as int,
            ) ==> (r.0 matches Err(e) && e matches EnvError::InvalidMemoryPage(_)) && r.1 == ext,
            spec_imports_ok(old(self).spec_funcs(), module@.imports) && spec_pages_ok(
                memory_pages@,
                old(memory)@.len() as int,
            ) ==> {
                &&& forall|p: int|
                    0 <= p < old(memory)@.len() ==> final(memory)@[p] == spec_loaded_page(
                        old(memory)@,
                        memory_pages@,
                        p,
                    )
                &&& (spec_find_entry(module@, entry_point@) is None ==> r.0 == Err::<
                    (),
                    EnvError,
                >(EnvError::MissingEntry) && r.1 == ext)
                &&& (spec_find_entry(module@, entry_point@) matches Some(f) ==> {
                    &&& (!spec_entry_callable(module@, f) ==> r.0 == Err::<(), EnvError>(
                        EnvError::InvalidEntrySignature,
                    ) && r.1 == ext)
                    &&& (spec_entry_callable(module@, f) ==> {
                        let run = spec_run(
                            ext.context.counters,
                            spec_entry_costs(module@, f),
                            spec_entry_overhead(module@),
                        );
                        &&& r.1.context.counters == run.0
                        &&& crate::ext::unchanged_but_counters(ext, r.1)
                        &&& r.0 == (match run.2 {
                            ChargeOutcome::Charged => Ok::<(), EnvError>(()),
                            ChargeOutcome::OutOfGas => Err::<(), EnvError>(EnvError::OutOfGasTrap),
                            ChargeOutcome::OutOfAllowance => Err::<(), EnvError>(
                                EnvError::OutOfAllowanceTrap,
                            ),
                        })
                    })
                })
            },
    {
        let ghost table = self.spec_funcs();
        let ghost memv0 = memory@;
        self.ext.set(ext);
        match self.resolve_imports(&module.imports) {
            Err(e) => {
                let e2 = self.ext.unset();
                return (Err(e), e2);
            },
            Ok(_) => {},
        }
        let mut i: usize = 0;
        while i < memory_pages.len()
            invariant
                i <= memory_pages@.len(),
                memory.wf(),
                memv0 == old(memory)@,
                memory@.len() == memv0.len(),
                self.spec_ext_set(),
                self.ext.spec_get() == ext,
                self.spec_funcs() == table,
                table == old(self).spec_funcs(),
                spec_imports_ok(table, module@.imports),
                forall|j: int|
                    0 <= j < i ==> (#[trigger] memory_pages@[j]).0 < memv0.len()
                        && memory_pages@[j].1@.len() == PAGE_SIZE,
                forall|p: int|
                    0 <= p < memv0.len() ==> memory@[p] == spec_loaded_page(
                        memv0,
                        memory_pages@.subrange(0, i as int),
                        p,
                    ),
            decreases memory_pages@.len() - i,
        {
            let pr = &memory_pages[i];
            if pr.0 >= memory.size() || pr.1.len() != PAGE_SIZE {
                let e2 = self.ext.unset();
                proof {
                    assert(!((memory_pages@[i as int]).0 < memv0.len()
                        && memory_pages@[i as int].1@.len() == PAGE_SIZE));
                }
                return (Err(EnvError::InvalidMemoryPage(pr.0)), e2);
            }
            memory.set_page(pr.0, &pr.1);
            proof {
                let sub1 = memory_pages@.subrange(0, i as int + 1);
                assert(sub1.drop_last() =~= memory_pages@.subrange(0, i as int));
                assert(sub1.last() == memory_pages@[i as int]);
            }
            i = i + 1;
        }
        proof {
            assert(memory_pages@.subrange(0, memory_pages@.len() as int) =~= memory_pages@);
        }
        let entry: u32 = match find_entry(&module.exports, entry_point) {
            None => {
                let e2 = self.ext.unset();
                return (Err(EnvError::MissingEntry), e2);
            },
            Some(f) => f,
        };
        let k: usize = func_import_count(&module.imports);
        if (entry as usize) < k || (entry as usize) - k >= module.functions.len() {
            let e2 = self.ext.unset();
            return (Err(EnvError::InvalidEntrySignature), e2);
        }
        let fidx: usize = entry as usize - k;
        let tidx: u32 = module.functions[fidx].type_index;
        if tidx as usize >= module.types.len() {
            let e2 = self.ext.unset();
            return (Err(EnvError::InvalidEntrySignature), e2);
        }
        let ty = &module.types[tidx as usize];
        if ty.params.len() != 0 || ty.result.is_some() {
            let e2 = self.ext.unset();
            proof {
                let tv = module@.types[tidx as int];
                assert(tv.params.len() != 0 || !(tv.result is None));
            }
            return (Err(EnvError::InvalidEntrySignature), e2);
        }
        proof {
            assert(module@.types[tidx as int] == module.types@[tidx as int]@);
            assert(spec_entry_callable(module@, entry));
        }
        let nlast: usize = module.functions.len() - 1;
        let mut overhead: u64 = 0;
        let lb = &module.functions[nlast].body;
        if lb.len() > 3 {
            if let Instruction::I64Const(v) = lb[3] {
                overhead = v as u64;
            }
        }
        proof {
            assert(module@.functions.last() == module.functions@[nlast as int]@);
            assert(overhead == spec_entry_overhead(module@));
        }
        let charge_idx: u32 = (k + module.functions.len() - 1) as u32;
        let costs = extract_charges(&module.functions[fidx].body, charge_idx);
        let rep = self.ext.run_charges(&costs, overhead);
        let e2 = self.ext.unset();
        proof {
            assert(costs@ == spec_entry_costs(module@, entry));
        }
        match rep.outcome {
            ChargeOutcome::Charged => (Ok(()), e2),
            ChargeOutcome::OutOfGas => (Err(EnvError::OutOfGasTrap), e2),
            ChargeOutcome::OutOfAllowance => (Err(EnvError::OutOfAllowanceTrap), e2),
        }
    }
}

fn find_entry(exports: &Vec<crate::module::ExportEntry>, name: &str) -> (r: Option<u32>)
    ensures
        r == spec_find_entry_from(exports@.map_values(|e: crate::module::ExportEntry| e@), name@, 0),
{
    let ghost ev = exports@.map_values(|e: crate::module::ExportEntry| e@);
    let wanted: String = name.to_owned();
    let mut i: usize = 0;
    while i < exports.len()
        invariant
            i <= exports@.len(),
            ev == exports@.map_values(|e: crate::module::ExportEntry| e@),
            wanted@ == name@,
            spec_find_entry_from(ev, name@, 0) == spec_find_entry_from(ev, name@, i as int),
        decreases exports@.len() - i,
    {
        let e = &exports[i];
        if e.field == wanted {
            if let ExportKind::Func(f) = e.kind {
                proof {
                    assert(ev[i as int].field == name@ && ev[i as int].kind is Func);
                }
                return Some(f);
            }
        }
        i = i + 1;
    }
    None
}

} // verus!
