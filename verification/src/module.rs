//! Contents of a module, section by section. A section that a module lacks is empty.

use std::collections::HashMap;

use vstd::prelude::*;
use vstd::string::*;

use crate::text;
use crate::types::{FunctionType, FunctionTypeView, GlobalType, MemoryType, TableType, ValueType};

verus! {

/// Instruction. Those that can begin an initializer are told apart; floats are given by their
/// encoding.
#[derive(Debug)]
pub enum Opcode {
    I32Const(i32),
    I64Const(i64),
    F32Const(u32),
    F64Const(u64),
    GetGlobal(u32),
    End,
    /// Any other instruction, in its binary encoding.
    Other(Vec<u8>),
}

/// Model of an [`Opcode`].
pub enum OpcodeView {
    I32Const(i32),
    I64Const(i64),
    F32Const(u32),
    F64Const(u64),
    GetGlobal(u32),
    End,
    Other(Seq<u8>),
}

impl View for Opcode {
    type V = OpcodeView;

    open spec fn view(&self) -> OpcodeView {
        match *self {
            Opcode::I32Const(v) => OpcodeView::I32Const(v),
            Opcode::I64Const(v) => OpcodeView::I64Const(v),
            Opcode::F32Const(v) => OpcodeView::F32Const(v),
            Opcode::F64Const(v) => OpcodeView::F64Const(v),
            Opcode::GetGlobal(idx) => OpcodeView::GetGlobal(idx),
            Opcode::End => OpcodeView::End,
            Opcode::Other(encoding) => OpcodeView::Other(encoding@),
        }
    }
}

impl Clone for Opcode {
    fn clone(&self) -> (copy: Opcode)
        ensures
            copy@ == self@,
    {
        match self {
            Opcode::I32Const(v) => Opcode::I32Const(*v),
            Opcode::I64Const(v) => Opcode::I64Const(*v),
            Opcode::F32Const(v) => Opcode::F32Const(*v),
            Opcode::F64Const(v) => Opcode::F64Const(*v),
            Opcode::GetGlobal(idx) => Opcode::GetGlobal(*idx),
            Opcode::End => Opcode::End,
            Opcode::Other(encoding) => {
                let encoding_copy = encoding.clone();
                assert(encoding_copy@ =~= encoding@);
                Opcode::Other(encoding_copy)
            },
        }
    }
}

/// Models of a sequence of instructions.
pub open spec fn opcode_views(opcodes: Seq<Opcode>) -> Seq<OpcodeView> {
    Seq::new(opcodes.len(), |i: int| opcodes[i]@)
}

/// Copies a sequence of instructions.
pub fn copy_opcodes(opcodes: &Vec<Opcode>) -> (copy: Vec<Opcode>)
    ensures
        opcode_views(copy@) == opcode_views(opcodes@),
{
    let mut copy: Vec<Opcode> = Vec::new();
    let mut i: usize = 0;
    while i < opcodes.len()
        invariant
            i <= opcodes@.len(),
            copy@.len() == i,
            forall|j: int| 0 <= j < i ==> copy@[j]@ == opcodes@[j]@,
        decreases opcodes@.len() - i,
    {
        copy.push(opcodes[i].clone());
        i += 1;
    }
    assert(opcode_views(copy@) =~= opcode_views(opcodes@));
    copy
}

/// Constant expression: its instructions, the closing `End` among them.
#[derive(Debug)]
pub struct InitExpr {
    pub code: Vec<Opcode>,
}

/// What an import asks for.
#[derive(Clone, Copy, Debug, PartialEq, Eq, Structural)]
pub enum External {
    /// A function, of the type with this index.
    Function(u32),
    Table(TableType),
    Memory(MemoryType),
    Global(GlobalType),
}

/// The word for a truth value.
pub open spec fn bool_text(b: bool) -> Seq<char> {
    if b {
        "true"@
    } else {
        "false"@
    }
}

impl External {
    /// How the request is written in messages.
    pub open spec fn text(self) -> Seq<char> {
        match self {
            External::Function(idx) => "Function("@ + text::decimal(idx as nat) + ")"@,
            External::Table(t) => "Table(TableType { limits: "@ + t.limits.text() + " })"@,
            External::Memory(t) => "Memory(MemoryType { limits: "@ + t.limits.text() + " })"@,
            External::Global(t) => "Global(GlobalType { content_type: "@ + t.content_type.text_spec()
                + ", is_mutable: "@ + bool_text(t.is_mutable) + " })"@,
        }
    }

    /// Appends the request to `out`, as it is written in messages.
    pub fn push_text(&self, out: &mut String)
        ensures
            final(out)@ == old(out)@ + self.text(),
    {
        match self {
            External::Function(idx) => {
                out.append("Function(");
                text::push_decimal(out, *idx as u64);
                out.append(")");
            },
            External::Table(t) => {
                out.append("Table(TableType { limits: ");
                t.limits.push_text(out);
                out.append(" })");
            },
            External::Memory(t) => {
                out.append("Memory(MemoryType { limits: ");
                t.limits.push_text(out);
                out.append(" })");
            },
            External::Global(t) => {
                out.append("Global(GlobalType { content_type: ");
                out.append(t.content_type.text());
                out.append(", is_mutable: ");
                if t.is_mutable {
                    out.append("true");
                } else {
                    out.append("false");
                }
                out.append(" })");
            },
        }
        assert(out@ =~= old(out)@ + self.text());
    }
}

/// Entry of the import section.
#[derive(Debug)]
pub struct ImportEntry {
    pub module: String,
    pub field: String,
    pub entry: External,
}

/// What an export gives out, by its index in the instance.
#[derive(Clone, Copy, Debug, PartialEq, Eq, Structural)]
pub enum Internal {
    Function(u32),
    Table(u32),
    Memory(u32),
    Global(u32),
}

/// Entry of the export section.
#[derive(Debug)]
pub struct ExportEntry {
    pub field: String,
    pub internal: Internal,
}

/// A run of local variables of one type.
#[derive(Clone, Copy, Debug, PartialEq, Eq, Structural)]
pub struct Local {
    pub count: u32,
    pub value_type: ValueType,
}

/// Copies runs of local variables.
pub fn copy_locals(locals: &Vec<Local>) -> (copy: Vec<Local>)
    ensures
        copy@ == locals@,
{
    let copy = locals.clone();
    assert(copy@ =~= locals@);
    copy
}

/// Entry of the code section.
#[derive(Debug)]
pub struct CodeBody {
    pub locals: Vec<Local>,
    pub code: Vec<Opcode>,
}

/// Entry of the global section.
#[derive(Debug)]
pub struct GlobalEntry {
    pub global_type: GlobalType,
    pub init_expr: InitExpr,
}

/// Entry of the element section: functions to be put into the table from `offset` on.
#[derive(Debug)]
pub struct ElementSegment {
    pub offset: InitExpr,
    pub members: Vec<u32>,
}

/// Entry of the data section: bytes to be put into the memory from `offset` on.
#[derive(Debug)]
pub struct DataSegment {
    pub offset: InitExpr,
    pub value: Vec<u8>,
}

/// Contents of a module.
#[derive(Debug)]
pub struct Module {
    pub types: Vec<FunctionType>,
    pub imports: Vec<ImportEntry>,
    /// For each function that the module defines, the index of its type.
    pub functions: Vec<u32>,
    pub bodies: Vec<CodeBody>,
    pub tables: Vec<TableType>,
    pub memories: Vec<MemoryType>,
    pub globals: Vec<GlobalEntry>,
    pub exports: Vec<ExportEntry>,
    pub elements: Vec<ElementSegment>,
    pub data: Vec<DataSegment>,
    /// Index of the function to be run once the module is instantiated.
    pub start: Option<u32>,
}

/// What validation of a module yields when it passes: for each function that the module
/// defines, by its place in the function section, the positions that its branches lead to.
#[derive(Debug)]
pub struct ModuleAuxData {
    pub labels: HashMap<usize, HashMap<usize, usize>>,
}

impl Module {
    /// The signatures of the type section.
    pub open spec fn type_views(self) -> Seq<FunctionTypeView> {
        Seq::new(self.types@.len(), |i: int| self.types@[i]@)
    }
}

} // verus!
