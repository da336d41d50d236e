//! Structural model of a parsed WebAssembly module: the imports, exports,
//! functions and globals that the instrumentation pass reads and rewrites.
//! Binary encoding and decoding of this representation is an external
//! concern; the injector consumes a parsed module and produces a new one.

use vstd::prelude::*;

verus! {

/// A WebAssembly numeric value type.
#[derive(Clone, Copy, Debug, PartialEq, Eq, Structural)]
pub enum ValType {
    I32,
    I64,
}

/// The subset of WebAssembly instructions the metering pass distinguishes.
#[derive(Clone, Copy, Debug, PartialEq, Eq, Structural)]
pub enum Instruction {
    Unreachable,
    Nop,
    Block,
    Loop,
    If,
    Else,
    End,
    Br(u32),
    BrIf(u32),
    Return,
    Call(u32),
    GetLocal(u32),
    SetLocal(u32),
    TeeLocal(u32),
    GetGlobal(u32),
    SetGlobal(u32),
    I32Const(i32),
    I64Const(i64),
    I64ExtendUI32,
    I64Add,
    I64Sub,
    I64LtU,
    I32Add,
    I32Sub,
}

/// What an import binds: a function of a given type index, or linear memory.
#[derive(Clone, Copy, Debug, PartialEq, Eq, Structural)]
pub enum ImportKind {
    Func(u32),
    Memory,
}

/// What an export names: a function or a global, by index.
#[derive(Clone, Copy, Debug, PartialEq, Eq, Structural)]
pub enum ExportKind {
    Func(u32),
    Global(u32),
}

/// Initial value of a global.
#[derive(Clone, Copy, Debug, PartialEq, Eq, Structural)]
pub enum InitValue {
    I32(i32),
    I64(i64),
}

/// A function signature: parameter types and at most one result.
#[derive(Clone, Debug, PartialEq, Eq)]
pub struct FuncType {
    pub params: Vec<ValType>,
    pub result: Option<ValType>,
}

/// Mathematical image of a `FuncType`.
#[verifier::ext_equal]
pub struct FuncTypeV {
    pub params: Seq<ValType>,
    pub result: Option<ValType>,
}

impl View for FuncType {
    type V = FuncTypeV;

    open spec fn view(&self) -> FuncTypeV {
        FuncTypeV { params: self.params@, result: self.result }
    }
}

/// One import entry: namespace, name, and what it binds.
#[derive(Clone, Debug, PartialEq, Eq)]
pub struct ImportEntry {
    pub module: String,
    pub field: String,
    pub kind: ImportKind,
}

/// Mathematical image of an `ImportEntry`.
#[verifier::ext_equal]
pub struct ImportEntryV {
    pub module: Seq<char>,
    pub field: Seq<char>,
    pub kind: ImportKind,
}

impl View for ImportEntry {
    type V = ImportEntryV;

    open spec fn view(&self) -> ImportEntryV {
        ImportEntryV { module: self.module@, field: self.field@, kind: self.kind }
    }
}

/// One export entry: name and what it names.
#[derive(Clone, Debug, PartialEq, Eq)]
pub struct ExportEntry {
    pub field: String,
    pub kind: ExportKind,
}

/// Mathematical image of an `ExportEntry`.
#[verifier::ext_equal]
pub struct ExportEntryV {
    pub field: Seq<char>,
    pub kind: ExportKind,
}

impl View for ExportEntry {
    type V = ExportEntryV;

    open spec fn view(&self) -> ExportEntryV {
        ExportEntryV { field: self.field@, kind: self.kind }
    }
}

/// One global: mutability, value type and initial value.
#[derive(Clone, Copy, Debug, PartialEq, Eq, Structural)]
pub struct GlobalEntry {
    pub mutable: bool,
    pub value_type: ValType,
    pub init: InitValue,
}

/// One defined function: its type index, extra locals and body.
#[derive(Clone, Debug, PartialEq, Eq)]
pub struct Func {
    pub type_index: u32,
    pub locals: Vec<ValType>,
    pub body: Vec<Instruction>,
}

/// Mathematical image of a `Func`.
#[verifier::ext_equal]
pub struct FuncV {
    pub type_index: u32,
    pub locals: Seq<ValType>,
    pub body: Seq<Instruction>,
}

impl View for Func {
    type V = FuncV;

    open spec fn view(&self) -> FuncV {
        FuncV { type_index: self.type_index, locals: self.locals@, body: self.body@ }
    }
}

/// An immutable parsed module. The injector consumes one and produces a new
/// one; it never mutates a module in place.
#[derive(Clone, Debug, PartialEq, Eq)]
pub struct Module {
    pub types: Vec<FuncType>,
    pub imports: Vec<ImportEntry>,
    pub functions: Vec<Func>,
    pub globals: Vec<GlobalEntry>,
    pub exports: Vec<ExportEntry>,
}

/// Mathematical image of a `Module`.
#[verifier::ext_equal]
pub struct ModuleV {
    pub types: Seq<FuncTypeV>,
    pub imports: Seq<ImportEntryV>,
    pub functions: Seq<FuncV>,
    pub globals: Seq<GlobalEntry>,
    pub exports: Seq<ExportEntryV>,
}

impl View for Module {
    type V = ModuleV;

    open spec fn view(&self) -> ModuleV {
        ModuleV {
            types: self.types@.map_values(|t: FuncType| t@),
            imports: self.imports@.map_values(|e: ImportEntry| e@),
            functions: self.functions@.map_values(|f: Func| f@),
            globals: self.globals@,
            exports: self.exports@.map_values(|e: ExportEntry| e@),
        }
    }
}

/// Number of imported functions in an import sequence; they occupy the
/// function index space before any defined function.
pub open spec fn spec_func_imports(imports: Seq<ImportEntryV>) -> int
    decreases imports.len(),
{
    if imports.len() == 0 {
        0
    } else {
        spec_func_imports(imports.drop_last()) + if imports.last().kind is Func {
            1int
        } else {
            0int
        }
    }
}

/// The import count lies between zero and the number of import entries.
pub proof fn lemma_func_imports_nonneg(imports: Seq<ImportEntryV>)
    ensures
        0 <= spec_func_imports(imports) <= imports.len(),
    decreases imports.len(),
{
    if imports.len() > 0 {
        lemma_func_imports_nonneg(imports.drop_last());
    }
}

/// The function index space of a module: imported then defined functions.
pub open spec fn spec_functions_space(m: ModuleV) -> int {
    spec_func_imports(m.imports) + m.functions.len()
}

/// Every `Call` target in the body lies below `n`.
pub open spec fn spec_calls_below(body: Seq<Instruction>, n: int) -> bool {
    forall|j: int|
        0 <= j < body.len() ==> (#[trigger] body[j] matches Instruction::Call(f) ==> f < n)
}

/// Count the imported functions of a module.
pub fn func_import_count(imports: &Vec<ImportEntry>) -> (n: usize)
    ensures
        n as int == spec_func_imports(imports@.map_values(|e: ImportEntry| e@)),
        n <= imports@.len(),
{
    let ghost iv = imports@.map_values(|e: ImportEntry| e@);
    let mut n: usize = 0;
    let mut i: usize = 0;
    while i < imports.len()
        invariant
            i <= imports@.len(),
            n <= i,
            iv == imports@.map_values(|e: ImportEntry| e@),
            n as int == spec_func_imports(iv.subrange(0, i as int)),
        decreases imports@.len() - i,
    {
        proof {
            assert(iv.subrange(0, i + 1).drop_last() =~= iv.subrange(0, i as int));
            assert(iv.subrange(0, i + 1).last() == iv[i as int]);
        }
        match imports[i].kind {
            ImportKind::Func(_) => {
                n = n + 1;
            },
            ImportKind::Memory => {},
        }
        i = i + 1;
    }
    proof {
        assert(iv.subrange(0, imports@.len() as int) =~= iv);
    }
    n
}

} // verus!
