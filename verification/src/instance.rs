//! Instances: tables, memories, globals and modules, and what passes between modules.

use std::rc::Rc;

use vstd::hash_map::StringHashMap;
use vstd::prelude::*;
use vstd::string::*;

use crate::error::{Error, ErrorView};
use crate::func::{FuncInstance, FuncView};
use crate::types::{FunctionType, FunctionTypeView, ResizableLimits};
use crate::value::RuntimeValue;

verus! {

/// A table: the handle under which the execution engine keeps it, and
/// the bounds of its size.
#[derive(Clone, Copy, Debug, PartialEq, Eq, Structural)]
pub struct TableInstance {
    pub handle: usize,
    pub limits: ResizableLimits,
}

/// A linear memory: the handle under which the execution engine keeps
/// it, and the bounds of its size.
#[derive(Clone, Copy, Debug, PartialEq, Eq, Structural)]
pub struct MemoryInstance {
    pub handle: usize,
    pub limits: ResizableLimits,
}

/// Handle of a global in the heap.
#[derive(Clone, Copy, Debug, PartialEq, Eq, Structural)]
pub struct GlobalId(pub usize);

/// A variable with its current value, which can be set only if the global is mutable.
#[derive(Debug)]
pub struct GlobalInstance {
    val: RuntimeValue,
    mutable: bool,
}

/// Model of a [`GlobalInstance`].
pub struct GlobalView {
    pub val: RuntimeValue,
    pub mutable: bool,
}

impl View for GlobalInstance {
    type V = GlobalView;

    closed spec fn view(&self) -> GlobalView {
        GlobalView { val: self.val, mutable: self.mutable }
    }
}

/// The error of setting a global that cannot be set.
pub open spec fn immutable_global() -> ErrorView {
    ErrorView::Validation("Can't set immutable global"@)
}

impl GlobalInstance {
    /// A global with its first value.
    pub fn new(val: RuntimeValue, mutable: bool) -> (global: GlobalInstance)
        ensures
            global@ == (GlobalView { val, mutable }),
    {
        GlobalInstance { val, mutable }
    }

    /// Gives a mutable global the value `val`; an immutable one is left as it is.
    pub fn set(&mut self, val: RuntimeValue) -> (result: Result<(), Error>)
        ensures
            final(self)@.mutable == old(self)@.mutable,
            match result {
                Ok(()) => old(self)@.mutable && final(self)@.val == val,
                Err(e) => !old(self)@.mutable && final(self)@ == old(self)@ && e@
                    == immutable_global(),
            },
    {
        if !self.mutable {
            return Err(Error::Validation("Can't set immutable global".to_owned()));
        }
        self.val = val;
        Ok(())
    }

    /// The current value.
    pub fn get(&self) -> (val: RuntimeValue)
        ensures
            val == self@.val,
    {
        self.val
    }
}

/// What a module can import and export.
pub enum ExternVal {
    Func(Rc<FuncInstance>),
    Table(Rc<TableInstance>),
    Memory(Rc<MemoryInstance>),
    Global(GlobalId),
}

/// Model of an [`ExternVal`].
#[verifier::ext_equal]
pub enum ExternView {
    Func(FuncView),
    Table(TableInstance),
    Memory(MemoryInstance),
    Global(GlobalId),
}

impl View for ExternVal {
    type V = ExternView;

    open spec fn view(&self) -> ExternView {
        match *self {
            ExternVal::Func(func) => ExternView::Func(func@),
            ExternVal::Table(table) => ExternView::Table(*table),
            ExternVal::Memory(memory) => ExternView::Memory(*memory),
            ExternVal::Global(global) => ExternView::Global(global),
        }
    }
}

impl ExternView {
    /// How the value is written in messages, where what it holds is written as `held`.
    pub open spec fn text(self, held: Seq<char>) -> Seq<char> {
        let kind = match self {
            ExternView::Func(_) => "Func("@,
            ExternView::Table(_) => "Table("@,
            ExternView::Memory(_) => "Memory("@,
            ExternView::Global(_) => "Global("@,
        };
        kind + held + ")"@
    }
}

impl Clone for ExternVal {
    fn clone(&self) -> (copy: ExternVal)
        ensures
            copy == *self,
    {
        match self {
            ExternVal::Func(func) => ExternVal::Func(Rc::clone(func)),
            ExternVal::Table(table) => ExternVal::Table(Rc::clone(table)),
            ExternVal::Memory(memory) => ExternVal::Memory(Rc::clone(memory)),
            ExternVal::Global(global) => ExternVal::Global(*global),
        }
    }
}

impl ExternVal {
    /// The function, if the value is one.
    pub fn as_func(&self) -> (func: Option<Rc<FuncInstance>>)
        ensures
            func == (match *self {
                ExternVal::Func(f) => Some(f),
                _ => None,
            }),
    {
        match self {
            ExternVal::Func(func) => Some(Rc::clone(func)),
            _ => None,
        }
    }

    /// The table, if the value is one.
    pub fn as_table(&self) -> (table: Option<Rc<TableInstance>>)
        ensures
            table == (match *self {
                ExternVal::Table(t) => Some(t),
                _ => None,
            }),
    {
        match self {
            ExternVal::Table(table) => Some(Rc::clone(table)),
            _ => None,
        }
    }

    /// The memory, if the value is one.
    pub fn as_memory(&self) -> (memory: Option<Rc<MemoryInstance>>)
        ensures
            memory == (match *self {
                ExternVal::Memory(m) => Some(m),
                _ => None,
            }),
    {
        match self {
            ExternVal::Memory(memory) => Some(Rc::clone(memory)),
            _ => None,
        }
    }

    /// The global, if the value is one.
    pub fn as_global(&self) -> (global: Option<GlobalId>)
        ensures
            global == (match *self {
                ExternVal::Global(g) => Some(g),
                _ => None,
            }),
    {
        match self {
            ExternVal::Global(global) => Some(*global),
            _ => None,
        }
    }

    /// The value as it is written in messages, where what it holds is written as `held`.
    pub fn fmt(&self, held: &str) -> (text: String)
        ensures
            text@ == self@.text(held@),
    {
        let kind = match self {
            ExternVal::Func(_) => "Func(",
            ExternVal::Table(_) => "Table(",
            ExternVal::Memory(_) => "Memory(",
            ExternVal::Global(_) => "Global(",
        };
        let mut out: String = kind.to_owned();
        out.append(held);
        out.append(")");
        out
    }
}

/// An export of an instance: what it gives out, under which name.
pub struct ExportInstance {
    pub name: String,
    pub val: ExternVal,
}

/// A module in the heap: its index spaces, and its exports by name.
pub struct ModuleInstance {
    types: Vec<Rc<FunctionType>>,
    tables: Vec<Rc<TableInstance>>,
    funcs: Vec<Rc<FuncInstance>>,
    memories: Vec<Rc<MemoryInstance>>,
    globals: Vec<GlobalId>,
    exports: StringHashMap<ExternVal>,
}

/// Model of a [`ModuleInstance`].
#[verifier::ext_equal]
pub struct ModuleView {
    pub types: Seq<FunctionTypeView>,
    pub tables: Seq<TableInstance>,
    pub funcs: Seq<FuncView>,
    pub memories: Seq<MemoryInstance>,
    pub globals: Seq<GlobalId>,
    pub exports: Map<Seq<char>, ExternView>,
}

impl View for ModuleInstance {
    type V = ModuleView;

    closed spec fn view(&self) -> ModuleView {
        ModuleView {
            types: Seq::new(self.types@.len(), |i: int| self.types@[i]@),
            tables: Seq::new(self.tables@.len(), |i: int| *self.tables@[i]),
            funcs: Seq::new(self.funcs@.len(), |i: int| self.funcs@[i]@),
            memories: Seq::new(self.memories@.len(), |i: int| *self.memories@[i]),
            globals: self.globals@,
            exports: export_views(self.exports@),
        }
    }
}

/// Models of exported values.
pub open spec fn export_views(exports: Map<Seq<char>, ExternVal>) -> Map<Seq<char>, ExternView> {
    exports.map_values(|val: ExternVal| val@)
}

impl ModuleView {
    /// An instance that holds nothing.
    pub open spec fn empty() -> ModuleView {
        ModuleView {
            types: Seq::empty(),
            tables: Seq::empty(),
            funcs: Seq::empty(),
            memories: Seq::empty(),
            globals: Seq::empty(),
            exports: Map::empty(),
        }
    }
}

impl Default for ModuleInstance {
    fn default() -> (instance: ModuleInstance)
        ensures
            instance@ == ModuleView::empty(),
    {
        let instance = ModuleInstance {
            types: Vec::new(),
            tables: Vec::new(),
            funcs: Vec::new(),
            memories: Vec::new(),
            globals: Vec::new(),
            exports: StringHashMap::new(),
        };
        assert(instance@ =~= ModuleView::empty());
        instance
    }
}

impl ModuleInstance {
    /// An instance that holds nothing.
    pub(crate) fn new() -> (instance: ModuleInstance)
        ensures
            instance@ == ModuleView::empty(),
    {
        ModuleInstance::default()
    }

    /// An instance that has exports and nothing else.
    pub fn with_exports(exports: StringHashMap<ExternVal>) -> (instance: ModuleInstance)
        ensures
            instance@ == (ModuleView { exports: export_views(exports@), ..ModuleView::empty() }),
    {
        let mut instance = ModuleInstance::default();
        instance.exports = exports;
        assert(instance@ =~= (ModuleView {
            exports: export_views(exports@),
            ..ModuleView::empty()
        }));
        instance
    }

    /// The memory with index `idx`.
    pub fn memory_by_index(&self, idx: u32) -> (memory: Option<Rc<MemoryInstance>>)
        ensures
            match memory {
                Some(m) => idx < self@.memories.len() && *m == self@.memories[idx as int],
                None => idx >= self@.memories.len(),
            },
    {
        if (idx as usize) < self.memories.len() {
            Some(Rc::clone(&self.memories[idx as usize]))
        } else {
            None
        }
    }

    /// The table with index `idx`.
    pub fn table_by_index(&self, idx: u32) -> (table: Option<Rc<TableInstance>>)
        ensures
            match table {
                Some(t) => idx < self@.tables.len() && *t == self@.tables[idx as int],
                None => idx >= self@.tables.len(),
            },
    {
        if (idx as usize) < self.tables.len() {
            Some(Rc::clone(&self.tables[idx as usize]))
        } else {
            None
        }
    }

    /// The global with index `idx`.
    pub fn global_by_index(&self, idx: u32) -> (global: Option<GlobalId>)
        ensures
            match global {
                Some(g) => idx < self@.globals.len() && g == self@.globals[idx as int],
                None => idx >= self@.globals.len(),
            },
    {
        if (idx as usize) < self.globals.len() {
            Some(self.globals[idx as usize])
        } else {
            None
        }
    }

    /// The function with index `idx`.
    pub fn func_by_index(&self, idx: u32) -> (func: Option<Rc<FuncInstance>>)
        ensures
            match func {
                Some(f) => idx < self@.funcs.len() && f@ == self@.funcs[idx as int],
                None => idx >= self@.funcs.len(),
            },
    {
        if (idx as usize) < self.funcs.len() {
            Some(Rc::clone(&self.funcs[idx as usize]))
        } else {
            None
        }
    }

    /// The type with index `idx`.
    pub fn type_by_index(&self, idx: u32) -> (func_type: Option<Rc<FunctionType>>)
        ensures
            match func_type {
                Some(t) => idx < self@.types.len() && t@ == self@.types[idx as int],
                None => idx >= self@.types.len(),
            },
    {
        if (idx as usize) < self.types.len() {
            Some(Rc::clone(&self.types[idx as usize]))
        } else {
            None
        }
    }

    /// What the instance exports as `name`.
    pub fn export_by_name(&self, name: &str) -> (val: Option<ExternVal>)
        ensures
            match val {
                Some(v) => self@.exports.contains_key(name@) && v@ == self@.exports[name@],
                None => !self@.exports.contains_key(name@),
            },
    {
        match self.exports.get(name) {
            Some(val) => Some(val.clone()),
            None => None,
        }
    }

    /// Adds a function at the end of its index space.
    pub(crate) fn push_func(&mut self, func: Rc<FuncInstance>)
        ensures
            final(self)@ == (ModuleView { funcs: old(self)@.funcs.push(func@), ..old(self)@ }),
    {
        self.funcs.push(func);
        assert(self@ =~= (ModuleView { funcs: old(self)@.funcs.push(func@), ..old(self)@ }));
    }

    /// Adds a type at the end of its index space.
    pub(crate) fn push_type(&mut self, func_type: Rc<FunctionType>)
        ensures
            final(self)@ == (ModuleView { types: old(self)@.types.push(func_type@), ..old(self)@ }),
    {
        self.types.push(func_type);
        assert(self@ =~= (ModuleView { types: old(self)@.types.push(func_type@), ..old(self)@ }));
    }

    /// Adds a memory at the end of its index space.
    pub(crate) fn push_memory(&mut self, memory: Rc<MemoryInstance>)
        ensures
            final(self)@ == (ModuleView {
                memories: old(self)@.memories.push(*memory),
                ..old(self)@
            }),
    {
        self.memories.push(memory);
        assert(self@ =~= (ModuleView {
            memories: old(self)@.memories.push(*memory),
            ..old(self)@
        }));
    }

    /// Adds a table at the end of its index space.
    pub(crate) fn push_table(&mut self, table: Rc<TableInstance>)
        ensures
            final(self)@ == (ModuleView { tables: old(self)@.tables.push(*table), ..old(self)@ }),
    {
        self.tables.push(table);
        assert(self@ =~= (ModuleView { tables: old(self)@.tables.push(*table), ..old(self)@ }));
    }

    /// Adds a global at the end of its index space.
    pub(crate) fn push_global(&mut self, global: GlobalId)
        ensures
            final(self)@ == (ModuleView { globals: old(self)@.globals.push(global), ..old(self)@ }),
    {
        self.globals.push(global);
        assert(self@ =~= (ModuleView { globals: old(self)@.globals.push(global), ..old(self)@ }));
    }

    /// Exports `val` as `name`, in place of what was exported under that name before.
    pub(crate) fn insert_export(&mut self, name: String, val: ExternVal)
        ensures
            final(self)@ == (ModuleView {
                exports: old(self)@.exports.insert(name@, val@),
                ..old(self)@
            }),
    {
        self.exports.insert(name, val);
        assert(self@ =~= (ModuleView {
            exports: old(self)@.exports.insert(name@, val@),
            ..old(self)@
        }));
    }
}

} // verus!
