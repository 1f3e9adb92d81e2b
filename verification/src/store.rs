//! The store: what an embedder allocates through it.

use std::rc::Rc;

use vstd::prelude::*;

use crate::error::Error;
use crate::func::{FuncBody, FuncInstance, HostFuncId, ModuleId};
use crate::heap::{Heap, HeapView};
use crate::instance::{GlobalId, GlobalInstance, GlobalView, MemoryInstance, TableInstance};
use crate::types::{FunctionType, GlobalType};
use crate::value::RuntimeValue;

verus! {

/// What everything is allocated through. A store holds nothing of its own: what is allocated
/// passes freely between stores, and any store does as well as any other.
#[derive(Debug)]
pub struct Store;

impl Default for Store {
    fn default() -> (store: Store)
        ensures
            store == Store,
    {
        Store
    }
}

impl Store {
    /// A store.
    pub fn new() -> (store: Store)
        ensures
            store == Store,
    {
        Store::default()
    }

    /// Allocates a signature.
    pub fn alloc_func_type(&mut self, func_type: FunctionType) -> (allocated: Rc<FunctionType>)
        ensures
            *allocated == func_type,
    {
        Rc::new(func_type)
    }

    /// Allocates a function that the instance `module` defines.
    pub fn alloc_func(
        &mut self,
        module: ModuleId,
        func_type: Rc<FunctionType>,
        body: FuncBody,
    ) -> (func: Rc<FuncInstance>)
        ensures
            *func == (FuncInstance::Internal { func_type, module, body: Rc::new(body) }),
    {
        let func = FuncInstance::Internal { func_type, module, body: Rc::new(body) };
        Rc::new(func)
    }

    /// Allocates a function that the embedder provides.
    pub fn alloc_host_func(&mut self, func_type: Rc<FunctionType>, host_func: HostFuncId) -> (func:
        Rc<FuncInstance>)
        ensures
            *func == (FuncInstance::Host { func_type, host_func }),
    {
        let func = FuncInstance::Host { func_type, host_func };
        Rc::new(func)
    }

    /// Allocates a table, given what the execution engine answered when it was asked to create it.
    pub fn alloc_table(&mut self, created: Result<TableInstance, Error>) -> (result: Result<
        Rc<TableInstance>,
        Error,
    >)
        ensures
            match created {
                Ok(table) => result matches Ok(allocated) && *allocated == table,
                Err(e) => result == Err::<Rc<TableInstance>, Error>(e),
            },
    {
        match created {
            Ok(table) => Ok(Rc::new(table)),
            Err(e) => Err(e),
        }
    }

    /// Allocates a memory, given what the execution engine answered when it was asked to create
    /// it.
    pub fn alloc_memory(&mut self, created: Result<MemoryInstance, Error>) -> (result: Result<
        Rc<MemoryInstance>,
        Error,
    >)
        ensures
            match created {
                Ok(memory) => result matches Ok(allocated) && *allocated == memory,
                Err(e) => result == Err::<Rc<MemoryInstance>, Error>(e),
            },
    {
        match created {
            Ok(memory) => Ok(Rc::new(memory)),
            Err(e) => Err(e),
        }
    }

    /// Allocates a global of the given type on `heap`, with its first value.
    pub fn alloc_global(&mut self, heap: &mut Heap, global_type: GlobalType, val: RuntimeValue) -> (id:
        GlobalId)
        ensures
            id.0 == old(heap)@.globals.len(),
            final(heap)@ == (HeapView {
                globals: old(heap)@.globals.push(
                    GlobalView { val, mutable: global_type.is_mutable },
                ),
                ..old(heap)@
            }),
            old(heap)@.grows_to(final(heap)@),
            old(heap)@.wf() ==> final(heap)@.wf(),
    {
        heap.push_global(GlobalInstance::new(val, global_type.is_mutable))
    }
}

} // verus!
