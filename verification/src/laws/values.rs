//! Laws of functions, globals, instances and what passes between modules.

use std::rc::Rc;

use vstd::hash_map::StringHashMap;
use vstd::prelude::*;
use vstd::std_specs::cmp::PartialEqSpec;

use crate::error::Error;
use crate::func::{FuncBody, FuncInstance, HostFuncId, ModuleId};
use crate::heap::Heap;
use crate::instance::{ExternVal, GlobalId, GlobalInstance, MemoryInstance, ModuleInstance, TableInstance};
use crate::module::{Local, Opcode, OpcodeView, copy_locals, copy_opcodes};
use crate::store::Store;
use crate::types::{FunctionType, GlobalType};
use crate::value::RuntimeValue;

verus! {

/// A value that passes between modules is of one kind, and what it holds is had under that kind
/// alone.
pub proof fn law_extern_values(
    val: ExternVal,
    func: Option<Rc<FuncInstance>>,
    table: Option<Rc<TableInstance>>,
    memory: Option<Rc<MemoryInstance>>,
    global: Option<GlobalId>,
)
    requires
        call_ensures(ExternVal::as_func, (&val,), func),
        call_ensures(ExternVal::as_table, (&val,), table),
        call_ensures(ExternVal::as_memory, (&val,), memory),
        call_ensures(ExternVal::as_global, (&val,), global),
    ensures
        val matches ExternVal::Func(f) ==> func == Some(f) && table is None && memory is None
            && global is None,
        val matches ExternVal::Table(t) ==> table == Some(t) && func is None && memory is None
            && global is None,
        val matches ExternVal::Memory(m) ==> memory == Some(m) && func is None && table is None
            && global is None,
        val matches ExternVal::Global(g) ==> global == Some(g) && func is None && table is None
            && memory is None,
{
}

/// A copy of a value that passes between modules, or of a function, is the value itself.
pub proof fn law_copies(
    val: ExternVal,
    val_copy: ExternVal,
    func: FuncInstance,
    func_copy: FuncInstance,
)
    requires
        call_ensures(ExternVal::clone, (&val,), val_copy),
        call_ensures(FuncInstance::clone, (&func,), func_copy),
    ensures
        val_copy == val,
        func_copy == func,
{
}

/// Copies of signatures, instructions and errors hold what was copied.
pub proof fn law_deep_copies(
    func_type: FunctionType,
    type_copy: FunctionType,
    body: FuncBody,
    body_copy: FuncBody,
    e: Error,
    e_copy: Error,
)
    requires
        call_ensures(FunctionType::clone, (&func_type,), type_copy),
        call_ensures(FuncBody::clone, (&body,), body_copy),
        call_ensures(Error::clone, (&e,), e_copy),
    ensures
        type_copy.params@ == func_type.params@,
        type_copy.return_type == func_type.return_type,
        body_copy.locals@ == body.locals@,
        body_copy.opcodes@.len() == body.opcodes@.len(),
        forall|i: int|
            0 <= i < body.opcodes@.len() ==> (#[trigger] body_copy.opcodes@[i])@
                == body.opcodes@[i]@,
        body_copy.labels@ == body.labels@,
        e_copy@ == e@,
{
    assert(body_copy@.opcodes == body@.opcodes);
    assert(body_copy@.opcodes.len() == body@.opcodes.len());
    assert forall|i: int| 0 <= i < body.opcodes@.len() implies (#[trigger] body_copy.opcodes@[i])@
        == body.opcodes@[i]@ by {
        assert(body_copy@.opcodes[i] == body@.opcodes[i]);
    }
}

/// Runs of locals and sequences of instructions are copied whole and in order.
pub proof fn law_copied_code(
    locals: Vec<Local>,
    locals_copy: Vec<Local>,
    opcodes: Vec<Opcode>,
    opcodes_copy: Vec<Opcode>,
)
    requires
        call_ensures(copy_locals, (&locals,), locals_copy),
        call_ensures(copy_opcodes, (&opcodes,), opcodes_copy),
    ensures
        locals_copy@ == locals@,
        opcodes_copy@.len() == opcodes@.len(),
        forall|i: int|
            0 <= i < opcodes@.len() ==> (#[trigger] opcodes_copy@[i])@ == opcodes@[i]@,
{
    let a = crate::module::opcode_views(opcodes_copy@);
    let b = crate::module::opcode_views(opcodes@);
    assert(a.len() == b.len());
    assert forall|i: int| 0 <= i < opcodes@.len() implies (#[trigger] opcodes_copy@[i])@
        == opcodes@[i]@ by {
        assert(a[i] == b[i]);
    }
}

/// Instructions are told apart by their sort and by what they hold.
pub proof fn law_opcodes_are_told_apart(opcode: Opcode)
    ensures
        opcode matches Opcode::I32Const(v) ==> opcode@ == OpcodeView::I32Const(v),
        opcode matches Opcode::I64Const(v) ==> opcode@ == OpcodeView::I64Const(v),
        opcode matches Opcode::F32Const(v) ==> opcode@ == OpcodeView::F32Const(v),
        opcode matches Opcode::F64Const(v) ==> opcode@ == OpcodeView::F64Const(v),
        opcode matches Opcode::GetGlobal(idx) ==> opcode@ == OpcodeView::GetGlobal(idx),
        opcode is End ==> opcode@ == OpcodeView::End,
        opcode matches Opcode::Other(encoding) ==> opcode@ == OpcodeView::Other(encoding@),
{
}

/// Signatures are equal where their parameter types, one by one and in order, and their return
/// types are, and only there.
pub proof fn law_signatures_are_equal_by_contents(a: FunctionType, b: FunctionType)
    ensures
        a.eq_spec(&b) <==> {
            &&& a.params@.len() == b.params@.len()
            &&& forall|i: int| 0 <= i < a.params@.len() ==> #[trigger] a.params@[i] == b.params@[i]
            &&& a.return_type == b.return_type
        },
        a@.params == a.params@,
        a@.return_type == a.return_type,
{
    if a.params@.len() == b.params@.len() && (forall|i: int|
        0 <= i < a.params@.len() ==> #[trigger] a.params@[i] == b.params@[i]) {
        assert(a.params@ =~= b.params@);
    }
}

/// A function that a module defines has its signature and its code, and one of the embedder has its
/// signature and no code.
pub proof fn law_function_parts(
    func: FuncInstance,
    func_type: Rc<FunctionType>,
    body: Option<Rc<FuncBody>>,
)
    requires
        call_ensures(FuncInstance::func_type, (&func,), func_type),
        call_ensures(FuncInstance::body, (&func,), body),
    ensures
        func matches FuncInstance::Internal { func_type: own, body: code, .. } ==> func_type == own
            && body == Some(code),
        func matches FuncInstance::Host { func_type: own, .. } ==> func_type == own && body is None,
{
}

/// The model of a function holds its parts: the signature, the instance or the embedder's handle,
/// and the locals, the instructions and the labels of its code.
pub proof fn law_function_model(func: FuncInstance)
    ensures
        func matches FuncInstance::Internal { func_type, module, body } ==> {
            &&& func@ is Internal
            &&& func@->Internal_func_type.params == func_type.params@
            &&& func@->Internal_func_type.return_type == func_type.return_type
            &&& func@->module == module
            &&& func@->body.locals == body.locals@
            &&& func@->body.opcodes.len() == body.opcodes@.len()
            &&& forall|i: int|
                0 <= i < body.opcodes@.len() ==> #[trigger] func@->body.opcodes[i]
                    == body.opcodes@[i]@
            &&& func@->body.labels == body.labels@
        },
        func matches FuncInstance::Host { func_type, host_func } ==> {
            &&& func@ is Host
            &&& func@->Host_func_type.params == func_type.params@
            &&& func@->Host_func_type.return_type == func_type.return_type
            &&& func@->host_func == host_func
        },
{
}

/// What is allocated is what was asked for.
pub proof fn law_allocations(
    store: &mut Store,
    given: FunctionType,
    allocated: Rc<FunctionType>,
    module: ModuleId,
    func_type: Rc<FunctionType>,
    body: FuncBody,
    func: Rc<FuncInstance>,
    host_func: HostFuncId,
    host: Rc<FuncInstance>,
)
    requires
        call_ensures(Store::alloc_func_type, (store, given), allocated),
        call_ensures(Store::alloc_func, (store, module, func_type, body), func),
        call_ensures(Store::alloc_host_func, (store, func_type, host_func), host),
    ensures
        *allocated == given,
        *func matches FuncInstance::Internal { func_type: t, module: m, body: b } && t == func_type
            && m == module && *b == body,
        *host matches FuncInstance::Host { func_type: t, host_func: h } && t == func_type && h
            == host_func,
{
}

/// A table or a memory that could be created is allocated as it is, and a failure to create it is
/// passed on.
pub proof fn law_created_things_are_passed_on(
    store: &mut Store,
    table: Result<TableInstance, Error>,
    allocated_table: Result<Rc<TableInstance>, Error>,
    memory: Result<MemoryInstance, Error>,
    allocated_memory: Result<Rc<MemoryInstance>, Error>,
)
    requires
        call_ensures(Store::alloc_table, (store, table), allocated_table),
        call_ensures(Store::alloc_memory, (store, memory), allocated_memory),
    ensures
        allocated_table is Ok <==> table is Ok,
        table is Ok ==> *allocated_table->Ok_0 == table->Ok_0,
        table is Err ==> allocated_table->Err_0 == table->Err_0,
        allocated_memory is Ok <==> memory is Ok,
        memory is Ok ==> *allocated_memory->Ok_0 == memory->Ok_0,
        memory is Err ==> allocated_memory->Err_0 == memory->Err_0,
{
}

/// A new global has its first value; a mutable one has the value that it was last given, and one
/// that is not mutable cannot be given any.
pub proof fn law_global(
    first: RuntimeValue,
    mutable: bool,
    global: &mut GlobalInstance,
    val: RuntimeValue,
    result: Result<(), Error>,
    before: RuntimeValue,
    after: RuntimeValue,
)
    requires
        call_ensures(GlobalInstance::new, (first, mutable), *old(global)),
        call_ensures(GlobalInstance::get, (&*old(global),), before),
        call_ensures(GlobalInstance::set, (global, val), result),
        call_ensures(GlobalInstance::get, (&*final(global),), after),
    ensures
        before == first,
        mutable ==> result is Ok && after == val,
        !mutable ==> {
            &&& result matches Err(Error::Validation(message))
            &&& message@ == "Can't set immutable global"@
            &&& after == first
        },
{
}

/// Setting a global sets it again and again, or never.
pub proof fn law_mutability_stays(
    global: &mut GlobalInstance,
    later: &mut GlobalInstance,
    val: RuntimeValue,
    next: RuntimeValue,
    result: Result<(), Error>,
    next_result: Result<(), Error>,
)
    requires
        call_ensures(GlobalInstance::set, (global, val), result),
        *old(later) == *final(global),
        call_ensures(GlobalInstance::set, (later, next), next_result),
    ensures
        result is Ok <==> next_result is Ok,
{
}

/// A global that is allocated gets a handle of its own, under which it has its first value, and
/// leaves all other globals and all instances as they are.
pub proof fn law_alloc_global(
    store: &mut Store,
    heap: &mut Heap,
    global_type: GlobalType,
    val: RuntimeValue,
    id: GlobalId,
)
    requires
        call_ensures(Store::alloc_global, (store, heap, global_type, val), id),
    ensures
        id.0 == old(heap)@.globals.len(),
        final(heap)@.globals.len() == old(heap)@.globals.len() + 1,
        final(heap)@.globals[id.0 as int].val == val,
        final(heap)@.globals[id.0 as int].mutable == global_type.is_mutable,
        forall|i: int|
            0 <= i < old(heap)@.globals.len() ==> #[trigger] final(heap)@.globals[i]
                == old(heap)@.globals[i],
        final(heap)@.modules == old(heap)@.modules,
{
}

/// Setting a global through its handle gives it the value, if it is mutable, and changes nothing
/// else; one that is not mutable, and everything else, stays as it is.
pub proof fn law_set_global(
    heap: &mut Heap,
    id: GlobalId,
    val: RuntimeValue,
    result: Result<(), Error>,
)
    requires
        old(heap)@.has_global(id),
        call_ensures(Heap::set_global, (heap, id, val), result),
    ensures
        result is Ok <==> old(heap)@.globals[id.0 as int].mutable,
        result is Ok ==> final(heap)@.globals[id.0 as int].val == val
            && final(heap)@.globals[id.0 as int].mutable,
        result matches Err(e) ==> {
            &&& e matches Error::Validation(message)
            &&& message@ == "Can't set immutable global"@
            &&& final(heap)@.globals[id.0 as int] == old(heap)@.globals[id.0 as int]
        },
        final(heap)@.globals.len() == old(heap)@.globals.len(),
        forall|i: int|
            0 <= i < old(heap)@.globals.len() && i != id.0 ==> #[trigger] final(heap)@.globals[i]
                == old(heap)@.globals[i],
        final(heap)@.modules == old(heap)@.modules,
{
}

/// What is read through a handle is the value of the global that the handle stands for.
pub proof fn law_read_global(heap: Heap, id: GlobalId, global: &GlobalInstance, val: RuntimeValue)
    requires
        call_ensures(Heap::global, (&heap, id), global),
        call_ensures(GlobalInstance::get, (global,), val),
    ensures
        val == heap@.globals[id.0 as int].val,
{
}

/// An instance that is taken in is had under the handle that it gets, and everything else on the
/// heap stays as it is.
pub proof fn law_push_module(
    heap: &mut Heap,
    instance: ModuleInstance,
    id: ModuleId,
    found: &ModuleInstance,
)
    requires
        call_ensures(Heap::push_module, (heap, instance), id),
        call_ensures(Heap::module, (&*final(heap), id), found),
    ensures
        found@ == instance@,
        id.0 == old(heap)@.modules.len(),
        final(heap)@.modules.len() == old(heap)@.modules.len() + 1,
        forall|i: int|
            0 <= i < old(heap)@.modules.len() ==> #[trigger] final(heap)@.modules[i]
                == old(heap)@.modules[i],
        final(heap)@.globals == old(heap)@.globals,
{
}

/// Handles are in range just where there is something under them, and on a new heap there is
/// nothing.
pub proof fn law_handles_in_range(
    heap: Heap,
    fresh: Heap,
    module: ModuleId,
    global: GlobalId,
    has_module: bool,
    has_global: bool,
    fresh_module: bool,
    fresh_global: bool,
)
    requires
        call_ensures(Heap::new, (), fresh),
        call_ensures(Heap::has_module, (&heap, module), has_module),
        call_ensures(Heap::has_global, (&heap, global), has_global),
        call_ensures(Heap::has_module, (&fresh, module), fresh_module),
        call_ensures(Heap::has_global, (&fresh, global), fresh_global),
    ensures
        has_module <==> module.0 < heap@.modules.len(),
        has_global <==> global.0 < heap@.globals.len(),
        !fresh_module,
        !fresh_global,
{
}

/// Under an index there is what stands at that place of the index space, and nothing beyond its
/// end.
pub proof fn law_index_spaces(
    instance: ModuleInstance,
    idx: u32,
    func: Option<Rc<FuncInstance>>,
    table: Option<Rc<TableInstance>>,
    memory: Option<Rc<MemoryInstance>>,
    global: Option<GlobalId>,
    func_type: Option<Rc<FunctionType>>,
)
    requires
        call_ensures(ModuleInstance::func_by_index, (&instance, idx), func),
        call_ensures(ModuleInstance::table_by_index, (&instance, idx), table),
        call_ensures(ModuleInstance::memory_by_index, (&instance, idx), memory),
        call_ensures(ModuleInstance::global_by_index, (&instance, idx), global),
        call_ensures(ModuleInstance::type_by_index, (&instance, idx), func_type),
    ensures
        func is Some <==> idx < instance@.funcs.len(),
        func matches Some(f) ==> f@ == instance@.funcs[idx as int],
        table is Some <==> idx < instance@.tables.len(),
        table matches Some(t) ==> *t == instance@.tables[idx as int],
        memory is Some <==> idx < instance@.memories.len(),
        memory matches Some(m) ==> *m == instance@.memories[idx as int],
        global is Some <==> idx < instance@.globals.len(),
        global matches Some(g) ==> g == instance@.globals[idx as int],
        func_type is Some <==> idx < instance@.types.len(),
        func_type matches Some(t) ==> t.params@ == instance@.types[idx as int].params
            && t.return_type == instance@.types[idx as int].return_type,
{
}

/// An instance of exports has each of them under its name, and nothing under any other name or any
/// index; an instance that holds nothing exports nothing.
pub proof fn law_with_exports(
    exports: StringHashMap<ExternVal>,
    instance: ModuleInstance,
    name: &str,
    val: Option<ExternVal>,
    nothing: ModuleInstance,
    no_val: Option<ExternVal>,
)
    requires
        call_ensures(ModuleInstance::with_exports, (exports,), instance),
        call_ensures(ModuleInstance::export_by_name, (&instance, name), val),
        call_ensures(ModuleInstance::default, (), nothing),
        call_ensures(ModuleInstance::export_by_name, (&nothing, name), no_val),
    ensures
        val is Some <==> exports@.contains_key(name@),
        val matches Some(v) ==> v@ == exports@[name@]@,
        no_val is None,
        instance@.types.len() == 0,
        instance@.tables.len() == 0,
        instance@.funcs.len() == 0,
        instance@.memories.len() == 0,
        instance@.globals.len() == 0,
        nothing@.types.len() == 0,
        nothing@.tables.len() == 0,
        nothing@.funcs.len() == 0,
        nothing@.memories.len() == 0,
        nothing@.globals.len() == 0,
{
}

/// What an instance exports under a name is what its exports hold under it.
pub proof fn law_export_by_name(instance: ModuleInstance, name: &str, val: Option<ExternVal>)
    requires
        call_ensures(ModuleInstance::export_by_name, (&instance, name), val),
    ensures
        val is Some <==> instance@.exports.contains_key(name@),
        val matches Some(v) ==> v@ == instance@.exports[name@],
{
}

/// Values that pass between modules are told apart by their kind and by what they hold.
pub proof fn law_extern_model(val: ExternVal)
    ensures
        val matches ExternVal::Func(f) ==> val@ is Func && val@->Func_0 == f@,
        val matches ExternVal::Table(t) ==> val@ is Table && val@->Table_0 == *t,
        val matches ExternVal::Memory(m) ==> val@ is Memory && val@->Memory_0 == *m,
        val matches ExternVal::Global(g) ==> val@ is Global && val@->Global_0 == g,
{
}

} // verus!
