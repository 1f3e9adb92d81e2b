//! Allocation of a module: its instance, filled section by section.

use std::collections::HashMap;
use std::rc::Rc;

use vstd::pervasive::unreached;
use vstd::prelude::*;

use crate::error;
use crate::error::{Error, ErrorView};
use crate::func::{FuncBody, FuncBodyView, FuncView, ModuleId};
use crate::heap::{Heap, HeapView};
use crate::init;
use crate::init::eval_init_expr;
use crate::instance::{ExternVal, ExternView, GlobalId, GlobalView, MemoryInstance, ModuleInstance, ModuleView, TableInstance};
use crate::link;
use crate::link::link_imports;
use crate::module;
use crate::module::{ExportEntry, GlobalEntry, Internal, Module, ModuleAuxData, copy_locals, copy_opcodes};
use crate::store::Store;
use crate::types::FunctionType;
use crate::valid;
use crate::value::RuntimeValue;

verus! {

/// What the execution engine answered about a module before it is instantiated: whether it is
/// valid, and what came of creating the tables and the memories that it defines, in order. Nothing
/// need be created for a module that is refused, nor after the first failure.
pub struct Prepared {
    pub validation: Result<ModuleAuxData, Error>,
    pub tables: Vec<Result<TableInstance, Error>>,
    pub memories: Vec<Result<MemoryInstance, Error>>,
}

/// The failures in a sequence of answers.
pub open spec fn failures<T>(answers: Seq<Result<T, Error>>) -> Seq<Option<ErrorView>> {
    Seq::new(
        answers.len(),
        |i: int|
            match answers[i] {
                Ok(_) => None,
                Err(e) => Some(e@),
            },
    )
}

/// What was created, where nothing failed.
pub open spec fn created<T>(answers: Seq<Result<T, Error>>) -> Seq<T> {
    Seq::new(answers.len(), |i: int| answers[i]->Ok_0)
}

/// What was created before the first failure.
pub open spec fn created_so_far<T>(answers: Seq<Result<T, Error>>) -> Seq<T> {
    created(answers.take(error::passed(failures(answers)) as int))
}

/// Why a module is not allocated: the first failure of validation, of linking, of creating its
/// tables and of creating its memories, in this order.
pub open spec fn alloc_refusal(module: Module, vals: Seq<ExternView>, prepared: Prepared) -> Option<
    ErrorView,
> {
    match prepared.validation {
        Err(e) => Some(e@),
        Ok(_) => match link::link_refusal(module.type_views(), module.imports@, vals) {
            Some(e) => Some(e),
            None => match error::first_refusal(failures(prepared.tables@)) {
                Some(e) => Some(e),
                None => error::first_refusal(failures(prepared.memories@)),
            },
        },
    }
}

impl Prepared {
    /// Whether the answers are those that are needed to allocate `module` with `vals`: a module
    /// that passed validation is valid, and there is an answer about each of its tables and
    /// memories, unless it is refused anyway.
    pub open spec fn is_for(self, module: Module, vals: Seq<ExternView>) -> bool {
        &&& self.validation matches Ok(aux) ==> valid::is_valid(module, aux.labels@)
        &&& alloc_refusal(module, vals, self) is None ==> {
            &&& self.tables@.len() == module.tables@.len()
            &&& self.memories@.len() == module.memories@.len()
        }
    }
}

/// The functions that a module defines, as they are in the instance `id`.
pub open spec fn defined_funcs(
    module: Module,
    id: ModuleId,
    labels: Map<usize, HashMap<usize, usize>>,
) -> Seq<FuncView> {
    Seq::new(
        module.functions@.len(),
        |i: int|
            FuncView::Internal {
                func_type: module.type_views()[module.functions@[i] as int],
                module: id,
                body: FuncBodyView {
                    locals: module.bodies@[i].locals@,
                    opcodes: module::opcode_views(module.bodies@[i].code@),
                    labels: labels[i as usize]@,
                },
            },
    )
}

/// The initial values of the globals that a module defines, in order. The initializer of each can
/// read the imported globals and those defined before it.
pub open spec fn defined_values(entries: Seq<GlobalEntry>, imported: Seq<RuntimeValue>) -> Seq<
    RuntimeValue,
>
    decreases entries.len(),
{
    if entries.len() == 0 {
        Seq::empty()
    } else {
        let before = defined_values(entries.drop_last(), imported);
        before.push(init::init_value(entries.last().init_expr, imported + before))
    }
}

/// The globals that a module defines, with their initial values.
pub open spec fn defined_globals(entries: Seq<GlobalEntry>, imported: Seq<RuntimeValue>) -> Seq<
    GlobalView,
> {
    Seq::new(
        entries.len(),
        |i: int|
            GlobalView {
                val: defined_values(entries, imported)[i],
                mutable: entries[i].global_type.is_mutable,
            },
    )
}

/// Handles of `n` globals, the first of which is `first`.
pub open spec fn fresh_globals(first: nat, n: nat) -> Seq<GlobalId> {
    Seq::new(n, |i: int| GlobalId((first + i) as usize))
}

/// What an export of an instance gives out.
pub open spec fn exported(internal: Internal, instance: ModuleView) -> ExternView {
    match internal {
        Internal::Function(idx) => ExternView::Func(instance.funcs[idx as int]),
        Internal::Table(idx) => ExternView::Table(instance.tables[idx as int]),
        Internal::Memory(idx) => ExternView::Memory(instance.memories[idx as int]),
        Internal::Global(idx) => ExternView::Global(instance.globals[idx as int]),
    }
}

/// The exports of an instance, by name. Where a name is given twice, the later entry counts.
pub open spec fn exports_of(entries: Seq<ExportEntry>, instance: ModuleView) -> Map<
    Seq<char>,
    ExternView,
>
    decreases entries.len(),
{
    if entries.len() == 0 {
        Map::empty()
    } else {
        exports_of(entries.drop_last(), instance).insert(
            entries.last().field@,
            exported(entries.last().internal, instance),
        )
    }
}

/// The instance of a module, without its exports: in each index space what is imported comes
/// first, and then what the module defines.
pub open spec fn index_spaces(
    heap: HeapView,
    module: Module,
    vals: Seq<ExternView>,
    prepared: Prepared,
) -> ModuleView {
    ModuleView {
        types: module.type_views(),
        tables: link::tables_of(vals) + created(prepared.tables@),
        funcs: link::funcs_of(vals) + defined_funcs(
            module,
            ModuleId(heap.modules.len() as usize),
            prepared.validation->Ok_0.labels@,
        ),
        memories: link::memories_of(vals) + created(prepared.memories@),
        globals: link::globals_of(vals) + fresh_globals(heap.globals.len(), module.globals@.len()),
        exports: Map::empty(),
    }
}

/// The instance of a module.
pub open spec fn instance_of(
    heap: HeapView,
    module: Module,
    vals: Seq<ExternView>,
    prepared: Prepared,
) -> ModuleView {
    let spaces = index_spaces(heap, module, vals, prepared);
    ModuleView { exports: exports_of(module.exports@, spaces), ..spaces }
}

/// The instance of a module that is refused, as it is left: it is filled section by section until
/// the first failure.
pub open spec fn refused_instance(
    heap: HeapView,
    module: Module,
    vals: Seq<ExternView>,
    prepared: Prepared,
) -> ModuleView {
    if prepared.validation is Err {
        ModuleView::empty()
    } else if link::link_refusal(module.type_views(), module.imports@, vals) is Some {
        link::partly_linked(module.type_views(), module.imports@, vals)
    } else {
        ModuleView {
            types: module.type_views(),
            tables: link::tables_of(vals) + created_so_far(prepared.tables@),
            funcs: link::funcs_of(vals) + defined_funcs(
                module,
                ModuleId(heap.modules.len() as usize),
                prepared.validation->Ok_0.labels@,
            ),
            memories: link::memories_of(vals) + (if error::first_refusal(
                failures(prepared.tables@),
            ) is Some {
                Seq::empty()
            } else {
                created_so_far(prepared.memories@)
            }),
            globals: link::globals_of(vals),
            exports: Map::empty(),
        }
    }
}

/// The heap after a module is allocated.
pub open spec fn allocated(
    heap: HeapView,
    module: Module,
    vals: Seq<ExternView>,
    prepared: Prepared,
) -> HeapView {
    HeapView {
        modules: heap.modules.push(instance_of(heap, module, vals, prepared)),
        globals: heap.globals + defined_globals(
            module.globals@,
            heap.values(link::globals_of(vals)),
        ),
    }
}

impl Store {
    /// Allocates the types of a module.
    pub(crate) fn define_types(&mut self, module: &Module, instance: &mut ModuleInstance)
        requires
            old(instance)@ == ModuleView::empty(),
        ensures
            final(instance)@ == (ModuleView { types: module.type_views(), ..ModuleView::empty() }),
    {
        let mut i: usize = 0;
        assert(module.type_views().take(0) =~= Seq::empty());
        while i < module.types.len()
            invariant
                i <= module.types@.len(),
                instance@ == (ModuleView {
                    types: module.type_views().take(i as int),
                    ..ModuleView::empty()
                }),
            decreases module.types@.len() - i,
        {
            let func_type: Rc<FunctionType> = self.alloc_func_type(module.types[i].clone());
            instance.push_type(func_type);
            i += 1;
            assert(module.type_views().take(i - 1).push(module.type_views()[i - 1])
                =~= module.type_views().take(i as int));
        }
        assert(module.type_views().take(i as int) =~= module.type_views());
    }

    /// Allocates the functions that a module defines.
    fn define_funcs(
        &mut self,
        module: &Module,
        id: ModuleId,
        aux: ModuleAuxData,
        instance: &mut ModuleInstance,
    )
        requires
            old(instance)@.types == module.type_views(),
            valid::is_valid(*module, aux.labels@),
        ensures
            final(instance)@ == (ModuleView {
                funcs: old(instance)@.funcs + defined_funcs(*module, id, aux.labels@),
                ..old(instance)@
            }),
    {
        broadcast use vstd::std_specs::hash::group_hash_axioms;

        let ghost all = aux.labels@;
        let ghost funcs = defined_funcs(*module, id, all);
        let mut labels: HashMap<usize, HashMap<usize, usize>> = aux.labels;
        let mut i: usize = 0;
        assert(old(instance)@.funcs + funcs.take(0) =~= old(instance)@.funcs);
        while i < module.functions.len()
            invariant
                old(instance)@.types == module.type_views(),
                valid::is_valid(*module, all),
                funcs == defined_funcs(*module, id, all),
                i <= module.functions@.len(),
                forall|j: usize|
                    i <= j < module.functions@.len() ==> #[trigger] labels@.contains_key(j)
                        && labels@[j] == all[j],
                instance@ == (ModuleView {
                    funcs: old(instance)@.funcs + funcs.take(i as int),
                    ..old(instance)@
                }),
            decreases module.functions@.len() - i,
        {
            let type_idx: u32 = module.functions[i];
            let func_type = match instance.type_by_index(type_idx) {
                Some(t) => t,
                None => unreached(),
            };
            assert(labels@.contains_key(i));
            let func_labels = match labels.remove(&i) {
                Some(l) => l,
                None => unreached(),
            };
            let body = FuncBody {
                locals: copy_locals(&module.bodies[i].locals),
                opcodes: copy_opcodes(&module.bodies[i].code),
                labels: func_labels,
            };
            let func = self.alloc_func(id, func_type, body);
            assert(func@ == funcs[i as int]);
            instance.push_func(func);
            assert(old(instance)@.funcs + funcs.take(i + 1) =~= (old(instance)@.funcs + funcs.take(
                i as int,
            )).push(funcs[i as int]));
            i += 1;
        }
        assert(funcs.take(i as int) =~= funcs);
    }

    /// Allocates the tables that a module defines, given what came of creating them.
    fn define_tables(
        &mut self,
        answers: Vec<Result<TableInstance, Error>>,
        instance: &mut ModuleInstance,
    ) -> (result: Result<(), Error>)
        ensures
            match result {
                Ok(()) => {
                    &&& error::first_refusal(failures(answers@)) is None
                    &&& final(instance)@ == (ModuleView {
                        tables: old(instance)@.tables + created(answers@),
                        ..old(instance)@
                    })
                },
                Err(e) => {
                    &&& error::first_refusal(failures(answers@)) == Some(e@)
                    &&& final(instance)@ == (ModuleView {
                        tables: old(instance)@.tables + created_so_far(answers@),
                        ..old(instance)@
                    })
                },
            },
    {
        let ghost all = answers@;
        let ghost checks = failures(all);
        let ghost tables = created(all);
        assert(old(instance)@.tables + tables.take(0) =~= old(instance)@.tables);
        assert(checks.take(0) =~= Seq::empty());
        for answer in iter: answers.into_iter()
            invariant
                iter.seq() == all,
                checks == failures(all),
                tables == created(all),
                instance@ == (ModuleView {
                    tables: old(instance)@.tables + tables.take(iter.index()),
                    ..old(instance)@
                }),
                error::first_refusal(checks.take(iter.index())) is None,
        {
            let ghost i = iter.index();
            assert(answer == all[i]);
            assert(checks.take(i + 1).drop_last() =~= checks.take(i));
            match self.alloc_table(answer) {
                Ok(table) => {
                    instance.push_table(table);
                    assert(old(instance)@.tables + tables.take(i + 1) =~= (old(instance)@.tables
                        + tables.take(i)).push(tables[i]));
                },
                Err(e) => {
                    proof {
                        error::lemma_first_refusal_is_final(checks, i);
                        assert(created(all.take(i)) =~= tables.take(i));
                    }
                    return Err(e);
                },
            }
        }
        assert(checks.take(all.len() as int) =~= checks);
        assert(tables.take(all.len() as int) =~= tables);
        Ok(())
    }

    /// Allocates the memories that a module defines, given what came of creating them.
    fn define_memories(
        &mut self,
        answers: Vec<Result<MemoryInstance, Error>>,
        instance: &mut ModuleInstance,
    ) -> (result: Result<(), Error>)
        ensures
            match result {
                Ok(()) => {
                    &&& error::first_refusal(failures(answers@)) is None
                    &&& final(instance)@ == (ModuleView {
                        memories: old(instance)@.memories + created(answers@),
                        ..old(instance)@
                    })
                },
                Err(e) => {
                    &&& error::first_refusal(failures(answers@)) == Some(e@)
                    &&& final(instance)@ == (ModuleView {
                        memories: old(instance)@.memories + created_so_far(answers@),
                        ..old(instance)@
                    })
                },
            },
    {
        let ghost all = answers@;
        let ghost checks = failures(all);
        let ghost memories = created(all);
        assert(old(instance)@.memories + memories.take(0) =~= old(instance)@.memories);
        assert(checks.take(0) =~= Seq::empty());
        for answer in iter: answers.into_iter()
            invariant
                iter.seq() == all,
                checks == failures(all),
                memories == created(all),
                instance@ == (ModuleView {
                    memories: old(instance)@.memories + memories.take(iter.index()),
                    ..old(instance)@
                }),
                error::first_refusal(checks.take(iter.index())) is None,
        {
            let ghost i = iter.index();
            assert(answer == all[i]);
            assert(checks.take(i + 1).drop_last() =~= checks.take(i));
            match self.alloc_memory(answer) {
                Ok(memory) => {
                    instance.push_memory(memory);
                    assert(old(instance)@.memories + memories.take(i + 1) =~= (old(instance)@.memories
                        + memories.take(i)).push(memories[i]));
                },
                Err(e) => {
                    proof {
                        error::lemma_first_refusal_is_final(checks, i);
                        assert(created(all.take(i)) =~= memories.take(i));
                    }
                    return Err(e);
                },
            }
        }
        assert(checks.take(all.len() as int) =~= checks);
        assert(memories.take(all.len() as int) =~= memories);
        Ok(())
    }

    /// Allocates the globals that a module defines, with their initial values.
    fn define_globals(&mut self, heap: &mut Heap, module: &Module, instance: &mut ModuleInstance)
        requires
            forall|i: int|
                0 <= i < module.globals@.len() ==> init::is_const_expr(
                    (#[trigger] module.globals@[i]).init_expr,
                    old(instance)@.globals.len() + i as nat,
                ),
            forall|i: int|
                0 <= i < old(instance)@.globals.len() ==> old(heap)@.has_global(
                    #[trigger] old(instance)@.globals[i],
                ),
        ensures
            final(heap)@ == (HeapView {
                globals: old(heap)@.globals + defined_globals(
                    module.globals@,
                    old(heap)@.values(old(instance)@.globals),
                ),
                ..old(heap)@
            }),
            final(instance)@ == (ModuleView {
                globals: old(instance)@.globals + fresh_globals(
                    old(heap)@.globals.len(),
                    module.globals@.len(),
                ),
                ..old(instance)@
            }),
    {
        let ghost imported = old(instance)@.globals;
        let ghost imported_values = old(heap)@.values(imported);
        let ghost first = old(heap)@.globals.len();
        let mut i: usize = 0;
        assert(old(heap)@.globals + defined_globals(module.globals@.take(0), imported_values)
            =~= old(heap)@.globals);
        assert(imported + fresh_globals(first, 0) =~= imported);
        while i < module.globals.len()
            invariant
                forall|j: int|
                    0 <= j < module.globals@.len() ==> init::is_const_expr(
                        (#[trigger] module.globals@[j]).init_expr,
                        imported.len() + j as nat,
                    ),
                forall|j: int|
                    0 <= j < imported.len() ==> old(heap)@.has_global(#[trigger] imported[j]),
                imported == old(instance)@.globals,
                imported_values == old(heap)@.values(imported),
                first == old(heap)@.globals.len(),
                i <= module.globals@.len(),
                heap@ == (HeapView {
                    globals: old(heap)@.globals + defined_globals(
                        module.globals@.take(i as int),
                        imported_values,
                    ),
                    ..old(heap)@
                }),
                instance@ == (ModuleView {
                    globals: imported + fresh_globals(first, i as nat),
                    ..old(instance)@
                }),
                i > 0 ==> first + i - 1 <= usize::MAX,
            decreases module.globals@.len() - i,
        {
            let ghost before = module.globals@.take(i as int);
            let ghost after = module.globals@.take(i + 1);
            proof {
                lemma_defined_values_len(before, imported_values);
                assert(after.drop_last() =~= before);
                assert(heap@.values(instance@.globals) =~= imported_values + defined_values(
                    before,
                    imported_values,
                ));
            }
            let init_val = eval_init_expr(&module.globals[i].init_expr, instance, heap);
            let global = self.alloc_global(heap, module.globals[i].global_type, init_val);
            instance.push_global(global);
            assert(heap@.globals =~= old(heap)@.globals + defined_globals(after, imported_values));
            assert(imported + fresh_globals(first, (i + 1) as nat) =~= (imported + fresh_globals(
                first,
                i as nat,
            )).push(global));
            i += 1;
        }
        assert(module.globals@.take(i as int) =~= module.globals@);
    }

    /// Enters the exports of a module into its instance.
    fn define_exports(module: &Module, instance: &mut ModuleInstance)
        requires
            old(instance)@.exports == Map::<Seq<char>, ExternView>::empty(),
            forall|i: int|
                0 <= i < module.exports@.len() ==> valid::export_exists(
                    #[trigger] module.exports@[i],
                    space_sizes(old(instance)@),
                ),
        ensures
            final(instance)@ == (ModuleView {
                exports: exports_of(module.exports@, old(instance)@),
                ..old(instance)@
            }),
    {
        let ghost spaces = old(instance)@;
        let mut i: usize = 0;
        while i < module.exports.len()
            invariant
                forall|j: int|
                    0 <= j < module.exports@.len() ==> valid::export_exists(
                        #[trigger] module.exports@[j],
                        space_sizes(spaces),
                    ),
                i <= module.exports@.len(),
                instance@ == (ModuleView {
                    exports: exports_of(module.exports@.take(i as int), spaces),
                    ..spaces
                }),
            decreases module.exports@.len() - i,
        {
            let entry = &module.exports[i];
            assert(valid::export_exists(module.exports@[i as int], space_sizes(spaces)));
            let val = match entry.internal {
                Internal::Function(idx) => match instance.func_by_index(idx) {
                    Some(func) => ExternVal::Func(func),
                    None => unreached(),
                },
                Internal::Global(idx) => match instance.global_by_index(idx) {
                    Some(global) => ExternVal::Global(global),
                    None => unreached(),
                },
                Internal::Memory(idx) => match instance.memory_by_index(idx) {
                    Some(memory) => ExternVal::Memory(memory),
                    None => unreached(),
                },
                Internal::Table(idx) => match instance.table_by_index(idx) {
                    Some(table) => ExternVal::Table(table),
                    None => unreached(),
                },
            };
            instance.insert_export(entry.field.clone(), val);
            assert(module.exports@.take(i + 1).drop_last() =~= module.exports@.take(i as int));
            i += 1;
        }
        assert(module.exports@.take(i as int) =~= module.exports@);
    }

    /// Fills the empty instance that is to be the next one on `heap`, with the values that the
    /// module imports and with what it defines. Where the module is refused, the heap does not
    /// change, and the instance is left as it was filled so far.
    pub(crate) fn alloc_module_internal(
        &mut self,
        heap: &mut Heap,
        module: &Module,
        extern_vals: &[ExternVal],
        instance: &mut ModuleInstance,
        prepared: Prepared,
    ) -> (result: Result<(), Error>)
        requires
            prepared.is_for(*module, link::extern_views(extern_vals@)),
            old(heap)@.has_externs(link::extern_views(extern_vals@)),
            old(instance)@ == ModuleView::empty(),
        ensures
            match result {
                Ok(()) => {
                    let vals = link::extern_views(extern_vals@);
                    &&& alloc_refusal(*module, vals, prepared) is None
                    &&& final(instance)@ == instance_of(old(heap)@, *module, vals, prepared)
                    &&& final(heap)@ == (HeapView {
                        globals: allocated(old(heap)@, *module, vals, prepared).globals,
                        ..old(heap)@
                    })
                },
                Err(e) => {
                    let vals = link::extern_views(extern_vals@);
                    &&& alloc_refusal(*module, vals, prepared) == Some(e@)
                    &&& final(instance)@ == refused_instance(old(heap)@, *module, vals, prepared)
                    &&& final(heap)@ == old(heap)@
                },
            },
            prepared.validation is Ok ==> final(instance)@.types == module.type_views(),
    {
        let ghost vals = link::extern_views(extern_vals@);
        let aux = prepared.validation?;
        let id = heap.next_module();
        self.define_types(module, instance);
        link_imports(instance, &module.imports, extern_vals)?;
        proof {
            valid::lemma_linked_counts(module.type_views(), module.imports@, vals);
            lemma_globals_of_belong(old(heap)@, vals);
        }
        self.define_funcs(module, id, aux, instance);
        self.define_tables(prepared.tables, instance)?;
        self.define_memories(prepared.memories, instance)?;
        self.define_globals(heap, module, instance);
        assert(instance@ =~= index_spaces(old(heap)@, *module, vals, prepared));
        Store::define_exports(module, instance);
        Ok(())
    }
}

/// The sizes of the index spaces of an instance.
pub open spec fn space_sizes(instance: ModuleView) -> valid::Counts {
    valid::Counts {
        funcs: instance.funcs.len(),
        tables: instance.tables.len(),
        memories: instance.memories.len(),
        globals: instance.globals.len(),
    }
}

/// There is a value for each global that a module defines.
pub proof fn lemma_defined_values_len(entries: Seq<GlobalEntry>, imported: Seq<RuntimeValue>)
    ensures
        defined_values(entries, imported).len() == entries.len(),
    decreases entries.len(),
{
    if entries.len() > 0 {
        lemma_defined_values_len(entries.drop_last(), imported);
    }
}

/// The globals among values that are in range for a heap are in range for it.
pub proof fn lemma_globals_of_belong(heap: HeapView, vals: Seq<ExternView>)
    requires
        heap.has_externs(vals),
    ensures
        forall|i: int|
            0 <= i < link::globals_of(vals).len() ==> heap.has_global(
                #[trigger] link::globals_of(vals)[i],
            ),
    decreases vals.len(),
{
    if vals.len() > 0 {
        assert(heap.has_extern(vals[vals.len() - 1]));
        assert forall|i: int| 0 <= i < vals.drop_last().len() implies heap.has_extern(
            #[trigger] vals.drop_last()[i],
        ) by {
            assert(heap.has_extern(vals[i]));
        }
        lemma_globals_of_belong(heap, vals.drop_last());
        let before = link::globals_of(vals.drop_last());
        assert forall|i: int| 0 <= i < link::globals_of(vals).len() implies heap.has_global(
            #[trigger] link::globals_of(vals)[i],
        ) by {
            if i < before.len() {
                assert(heap.has_global(before[i]));
            }
        }
    }
}

} // verus!
