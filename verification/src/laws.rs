//! Laws: what holds of linking, of instances and of the heap as it grows.

pub mod actions;
pub mod allocation;
pub mod calls;
pub mod constants;
pub mod linking;
pub mod preparation;
pub mod texts;
pub mod validity;
pub mod values;

use vstd::prelude::*;

use crate::allocate;
use crate::allocate::Prepared;
use crate::error;
use crate::error::ErrorView;
use crate::func::{FuncView, ModuleId};
use crate::heap::HeapView;
use crate::init;
use crate::instance::{ExternView, GlobalView, ModuleView};
use crate::instantiate;
use crate::instantiate::{ActionView, InstantiationView};
use crate::link;
use crate::module::{ElementSegment, ExportEntry, External, GlobalEntry, ImportEntry, Internal, Module};
use crate::store::Store;
use crate::types::{FunctionTypeView, ResizableLimits};
use crate::valid;
use crate::value::RuntimeValue;

verus! {

/// Bounds match themselves.
pub proof fn law_limits_reflexive(l: ResizableLimits)
    ensures
        link::limits_match(l, l),
{
}

/// What can stand for something that can stand for a third, can stand for the third.
pub proof fn law_limits_transitive(l1: ResizableLimits, l2: ResizableLimits, l3: ResizableLimits)
    requires
        link::limits_match(l1, l2),
        link::limits_match(l2, l3),
    ensures
        link::limits_match(l1, l3),
{
}

/// A value satisfies an import that asks for just what the value is: a function of its signature,
/// a table or a memory with its bounds, or a global.
pub proof fn law_value_satisfies_its_own_type(
    types: Seq<FunctionTypeView>,
    import: ImportEntry,
    val: ExternView,
    position: int,
)
    requires
        match (import.entry, val) {
            (External::Function(idx), ExternView::Func(func)) => types[idx as int]
                == func.func_type(),
            (External::Table(t), ExternView::Table(table)) => t.limits == table.limits,
            (External::Memory(t), ExternView::Memory(memory)) => t.limits == memory.limits,
            (External::Global(_), ExternView::Global(_)) => true,
            _ => false,
        },
    ensures
        link::import_refusal(types, import, val, position) is None,
{
}

/// A module is allocated where it is valid, there is one value for each import, every value
/// satisfies its import and every table and memory could be created, and only there.
pub proof fn law_allocated_iff_all_checks_pass(
    module: Module,
    vals: Seq<ExternView>,
    prepared: Prepared,
)
    ensures
        allocate::alloc_refusal(module, vals, prepared) is None <==> {
            &&& prepared.validation is Ok
            &&& module.imports@.len() == vals.len()
            &&& forall|i: int|
                0 <= i < vals.len() ==> link::import_refusal(
                    module.type_views(),
                    module.imports@[i],
                    #[trigger] vals[i],
                    i,
                ) is None
            &&& forall|i: int|
                0 <= i < prepared.tables@.len() ==> #[trigger] prepared.tables@[i] is Ok
            &&& forall|i: int|
                0 <= i < prepared.memories@.len() ==> #[trigger] prepared.memories@[i] is Ok
        },
{
    let types = module.type_views();
    let checks = link::import_checks(types, module.imports@, vals);
    let tables = allocate::failures(prepared.tables@);
    let memories = allocate::failures(prepared.memories@);
    error::lemma_no_refusal(checks);
    error::lemma_no_refusal(tables);
    error::lemma_no_refusal(memories);
    if allocate::alloc_refusal(module, vals, prepared) is None {
        assert forall|i: int| 0 <= i < vals.len() implies link::import_refusal(
            types,
            module.imports@[i],
            #[trigger] vals[i],
            i,
        ) is None by {
            assert(checks[i] is None);
        }
        assert forall|i: int| 0 <= i < prepared.tables@.len() implies #[trigger] prepared.tables@[i] is Ok by {
            assert(tables[i] is None);
        }
        assert forall|i: int|
            0 <= i < prepared.memories@.len() implies #[trigger] prepared.memories@[i] is Ok by {
            assert(memories[i] is None);
        }
    }
    if {
        &&& prepared.validation is Ok
        &&& module.imports@.len() == vals.len()
        &&& forall|i: int|
            0 <= i < vals.len() ==> link::import_refusal(
                types,
                module.imports@[i],
                #[trigger] vals[i],
                i,
            ) is None
        &&& forall|i: int|
            0 <= i < prepared.tables@.len() ==> #[trigger] prepared.tables@[i] is Ok
        &&& forall|i: int|
            0 <= i < prepared.memories@.len() ==> #[trigger] prepared.memories@[i] is Ok
    } {
        assert forall|i: int| 0 <= i < checks.len() implies #[trigger] checks[i] is None by {
            assert(link::import_refusal(types, module.imports@[i], vals[i], i) is None);
        }
        assert forall|i: int| 0 <= i < tables.len() implies #[trigger] tables[i] is None by {
            assert(prepared.tables@[i] is Ok);
        }
        assert forall|i: int| 0 <= i < memories.len() implies #[trigger] memories[i] is None by {
            assert(prepared.memories@[i] is Ok);
        }
    }
}

/// A valid module is refused for the first of its imports that is not satisfied. Its instance is
/// left with the types of the module and the values that came before, and with nothing else.
pub proof fn law_first_mismatch_is_reported(
    heap: HeapView,
    module: Module,
    vals: Seq<ExternView>,
    prepared: Prepared,
    k: int,
)
    requires
        prepared.validation is Ok,
        module.imports@.len() == vals.len(),
        0 <= k < vals.len(),
        forall|i: int|
            0 <= i < k ==> link::import_refusal(
                module.type_views(),
                module.imports@[i],
                #[trigger] vals[i],
                i,
            ) is None,
        link::import_refusal(module.type_views(), module.imports@[k], vals[k], k) is Some,
    ensures
        allocate::alloc_refusal(module, vals, prepared) == link::import_refusal(
            module.type_views(),
            module.imports@[k],
            vals[k],
            k,
        ),
        allocate::alloc_refusal(module, vals, prepared) matches Some(ErrorView::Initialization(_)),
        allocate::refused_instance(heap, module, vals, prepared) == link::linked(
            module.type_views(),
            vals.take(k),
        ),
{
    let checks = link::import_checks(module.type_views(), module.imports@, vals);
    error::lemma_no_refusal(checks.take(k));
    assert forall|i: int| 0 <= i < k implies #[trigger] checks.take(k)[i] is None by {
        assert(link::import_refusal(module.type_views(), module.imports@[i], vals[i], i) is None);
    }
    error::lemma_first_refusal_is_final(checks, k);
}

/// A valid module whose first import that is not satisfied was offered something of another kind is
/// refused in words that name what the import asks for and the very value that it was offered.
pub proof fn law_kind_mismatch_in_words(
    module: Module,
    vals: Seq<ExternView>,
    prepared: Prepared,
    k: int,
    held: Seq<char>,
)
    requires
        prepared.validation is Ok,
        module.imports@.len() == vals.len(),
        0 <= k < vals.len(),
        forall|i: int|
            0 <= i < k ==> link::import_refusal(
                module.type_views(),
                module.imports@[i],
                #[trigger] vals[i],
                i,
            ) is None,
        match (module.imports@[k].entry, vals[k]) {
            (External::Function(_), ExternView::Func(_)) => false,
            (External::Table(_), ExternView::Table(_)) => false,
            (External::Memory(_), ExternView::Memory(_)) => false,
            (External::Global(_), ExternView::Global(_)) => false,
            _ => true,
        },
    ensures
        ({
            &&& allocate::alloc_refusal(module, vals, prepared) matches Some(e)
            &&& e.offered(vals) == Some(vals[k])
            &&& e.in_words(vals, held) == error::in_words(
                "Expected "@ + module.imports@[k].entry.text() + " type, but provided "@
                    + vals[k].text(held) + " extern_val"@,
            )
        }),
{
    law_first_mismatch_is_reported(HeapView::empty(), module, vals, prepared, k);
}

/// A store holds nothing, so any store is as a new one, whatever was allocated through it.
pub proof fn law_stores_are_alike(store: Store)
    ensures
        store == Store,
{
}

/// Growth of a heap goes step by step.
pub proof fn law_growth_is_transitive(first: HeapView, second: HeapView, third: HeapView)
    requires
        first.grows_to(second),
        second.grows_to(third),
    ensures
        first.grows_to(third),
{
    assert forall|i: int| 0 <= i < first.modules.len() implies #[trigger] third.modules[i]
        == first.modules[i] by {
        assert(second.modules[i] == first.modules[i]);
    }
    assert forall|i: int| 0 <= i < first.globals.len() implies (#[trigger] third.globals[i]).mutable
        == first.globals[i].mutable by {
        assert(second.globals[i].mutable == first.globals[i].mutable);
    }
    assert forall|i: int|
        0 <= i < first.globals.len() && !first.globals[i].mutable implies #[trigger] third.globals[i]
        == first.globals[i] by {
        assert(second.globals[i] == first.globals[i]);
    }
}

/// A handle that is in range for a heap is in range for whatever the heap grows to.
pub proof fn law_handles_stay_valid(heap: HeapView, later: HeapView, val: ExternView)
    requires
        heap.grows_to(later),
        heap.has_extern(val),
    ensures
        later.has_extern(val),
{
}

/// Growth keeps the handles in an instance in range.
proof fn lemma_instance_stays(heap: HeapView, later: HeapView, instance: ModuleView)
    requires
        heap.grows_to(later),
        heap.has_instance(instance),
    ensures
        later.has_instance(instance),
{
    assert forall|i: int| 0 <= i < instance.funcs.len() implies later.has_func(
        #[trigger] instance.funcs[i],
    ) by {
        assert(heap.has_func(instance.funcs[i]));
    }
    assert forall|i: int| 0 <= i < instance.globals.len() implies later.has_global(
        #[trigger] instance.globals[i],
    ) by {
        assert(heap.has_global(instance.globals[i]));
    }
    assert forall|name: Seq<char>| #[trigger] instance.exports.contains_key(name) implies later.has_extern(
        instance.exports[name],
    ) by {
        assert(heap.has_extern(instance.exports[name]));
    }
}

/// Where every handle on a heap is in range for it, this stays so as the heap grows, if it is so of
/// the instances that are added.
pub proof fn law_growth_keeps_the_heap_sound(heap: HeapView, later: HeapView)
    requires
        heap.wf(),
        heap.grows_to(later),
        forall|i: int|
            heap.modules.len() <= i < later.modules.len() ==> later.has_instance(
                #[trigger] later.modules[i],
            ),
    ensures
        later.wf(),
{
    assert forall|i: int| 0 <= i < later.modules.len() implies later.has_instance(
        #[trigger] later.modules[i],
    ) by {
        if i < heap.modules.len() {
            assert(later.modules[i] == heap.modules[i]);
            lemma_instance_stays(heap, later, heap.modules[i]);
        }
    }
}

/// The functions among values that are in range for a heap are in range for it.
proof fn lemma_funcs_of_belong(heap: HeapView, vals: Seq<ExternView>)
    requires
        heap.has_externs(vals),
    ensures
        forall|i: int|
            0 <= i < link::funcs_of(vals).len() ==> heap.has_func(
                #[trigger] link::funcs_of(vals)[i],
            ),
    decreases vals.len(),
{
    if vals.len() > 0 {
        assert(heap.has_extern(vals[vals.len() - 1]));
        let before = link::funcs_of(vals.drop_last());
        assert forall|i: int| 0 <= i < vals.drop_last().len() implies heap.has_extern(
            #[trigger] vals.drop_last()[i],
        ) by {
            assert(heap.has_extern(vals[i]));
        }
        lemma_funcs_of_belong(heap, vals.drop_last());
        assert forall|i: int| 0 <= i < link::funcs_of(vals).len() implies heap.has_func(
            #[trigger] link::funcs_of(vals)[i],
        ) by {
            if i < before.len() {
                assert(heap.has_func(before[i]));
            }
        }
    }
}

/// The exports of an instance are taken from its index spaces.
proof fn lemma_exports_belong(
    heap: HeapView,
    entries: Seq<ExportEntry>,
    instance: ModuleView,
)
    requires
        forall|i: int|
            0 <= i < instance.funcs.len() ==> heap.has_func(#[trigger] instance.funcs[i]),
        forall|i: int|
            0 <= i < instance.globals.len() ==> heap.has_global(#[trigger] instance.globals[i]),
        forall|i: int|
            0 <= i < entries.len() ==> valid::export_exists(
                #[trigger] entries[i],
                allocate::space_sizes(instance),
            ),
    ensures
        forall|name: Seq<char>| #[trigger]
            allocate::exports_of(entries, instance).contains_key(name) ==> heap.has_extern(
                allocate::exports_of(entries, instance)[name],
            ),
    decreases entries.len(),
{
    if entries.len() > 0 {
        assert(valid::export_exists(
            entries[entries.len() - 1],
            allocate::space_sizes(instance),
        ));
        assert forall|i: int| 0 <= i < entries.drop_last().len() implies valid::export_exists(
            #[trigger] entries.drop_last()[i],
            allocate::space_sizes(instance),
        ) by {
            assert(valid::export_exists(entries[i], allocate::space_sizes(instance)));
        }
        lemma_exports_belong(heap, entries.drop_last(), instance);
        let before = allocate::exports_of(entries.drop_last(), instance);
        let after = allocate::exports_of(entries, instance);
        assert forall|name: Seq<char>| #[trigger] after.contains_key(name) implies heap.has_extern(
            after[name],
        ) by {
            if name != entries.last().field@ {
                assert(before.contains_key(name));
            }
        }
    }
}

/// Where every handle on a heap is in range for it, this stays so when a module is allocated with
/// values that are in range for the heap.
pub proof fn law_allocation_keeps_the_heap_sound(
    heap: HeapView,
    module: Module,
    vals: Seq<ExternView>,
    prepared: Prepared,
)
    requires
        heap.wf(),
        heap.has_externs(vals),
        prepared.is_for(module, vals),
        allocate::alloc_refusal(module, vals, prepared) is None,
        heap.modules.len() < usize::MAX,
        heap.globals.len() + module.globals@.len() <= usize::MAX,
    ensures
        allocate::allocated(heap, module, vals, prepared).wf(),
        heap.grows_to(allocate::allocated(heap, module, vals, prepared)),
{
    let later = allocate::allocated(heap, module, vals, prepared);
    let spaces = allocate::index_spaces(heap, module, vals, prepared);
    let instance = allocate::instance_of(heap, module, vals, prepared);
    valid::lemma_linked_counts(module.type_views(), module.imports@, vals);
    instantiate::lemma_allocated_values(heap, module, vals, prepared);
    lemma_funcs_of_belong(heap, vals);
    assert forall|i: int| 0 <= i < spaces.funcs.len() implies later.has_func(
        #[trigger] spaces.funcs[i],
    ) by {
        let imported = link::funcs_of(vals);
        if i < imported.len() {
            assert(heap.has_func(imported[i]));
        }
    }
    assert forall|i: int| 0 <= i < spaces.globals.len() implies later.has_global(
        #[trigger] spaces.globals[i],
    ) by {
        assert(later.has_global(instance.globals[i]));
    }
    lemma_exports_belong(later, module.exports@, spaces);
    assert(later.has_instance(instance));
    law_growth_keeps_the_heap_sound(heap, later);
}

/// The exports of an instance are named by the entries of the export section, and what is exported
/// under a name is what the last entry with that name refers to.
pub proof fn law_export_lookup(entries: Seq<ExportEntry>, instance: ModuleView, name: Seq<char>)
    ensures
        allocate::exports_of(entries, instance).contains_key(name) <==> exists|i: int|
            0 <= i < entries.len() && (#[trigger] entries[i]).field@ == name,
        forall|i: int|
            0 <= i < entries.len() && (#[trigger] entries[i]).field@ == name && (forall|j: int|
                i < j < entries.len() ==> (#[trigger] entries[j]).field@ != name)
                ==> allocate::exports_of(entries, instance)[name] == allocate::exported(
                entries[i].internal,
                instance,
            ),
    decreases entries.len(),
{
    if entries.len() > 0 {
        let before = entries.drop_last();
        law_export_lookup(before, instance, name);
        let exports = allocate::exports_of(entries, instance);
        if exports.contains_key(name) {
            if entries.last().field@ == name {
                assert(entries[entries.len() - 1].field@ == name);
            } else {
                let i = choose|i: int| 0 <= i < before.len() && (#[trigger] before[i]).field@ == name;
                assert(entries[i].field@ == name);
            }
        }
        if exists|i: int| 0 <= i < entries.len() && (#[trigger] entries[i]).field@ == name {
            let i = choose|i: int| 0 <= i < entries.len() && (#[trigger] entries[i]).field@ == name;
            if i < before.len() {
                assert(before[i].field@ == name);
            }
        }
        assert forall|i: int|
            0 <= i < entries.len() && (#[trigger] entries[i]).field@ == name && (forall|j: int|
                i < j < entries.len() ==> (#[trigger] entries[j]).field@
                    != name) implies exports[name] == allocate::exported(
            entries[i].internal,
            instance,
        ) by {
            if i < before.len() {
                assert(entries[entries.len() - 1].field@ != name);
                assert(before[i].field@ == name);
                assert forall|j: int| i < j < before.len() implies (#[trigger] before[j]).field@
                    != name by {
                    assert(entries[j].field@ != name);
                }
            }
        }
    }
}

/// What is imported goes, unchanged, to the place in its index space that the order of the imports
/// gives it.
pub proof fn law_imports_keep_their_order(vals: Seq<ExternView>, k: int)
    requires
        0 <= k < vals.len(),
    ensures
        match vals[k] {
            ExternView::Func(func) => {
                let place = link::funcs_of(vals.take(k)).len() as int;
                place < link::funcs_of(vals).len() && link::funcs_of(vals)[place] == func
            },
            ExternView::Table(table) => {
                let place = link::tables_of(vals.take(k)).len() as int;
                place < link::tables_of(vals).len() && link::tables_of(vals)[place] == table
            },
            ExternView::Memory(memory) => {
                let place = link::memories_of(vals.take(k)).len() as int;
                place < link::memories_of(vals).len() && link::memories_of(vals)[place] == memory
            },
            ExternView::Global(global) => {
                let place = link::globals_of(vals.take(k)).len() as int;
                place < link::globals_of(vals).len() && link::globals_of(vals)[place] == global
            },
        },
    decreases vals.len(),
{
    if k == vals.len() - 1 {
        assert(vals.take(k) =~= vals.drop_last());
    } else {
        assert(vals.drop_last().take(k) =~= vals.take(k));
        law_imports_keep_their_order(vals.drop_last(), k);
    }
}

/// In each index space of an instance what is imported comes first, and what the module defines
/// follows, in order. A function that the module defines has the signature that the module
/// declares for it, and runs in this very instance.
pub proof fn law_definitions_follow_imports(
    heap: HeapView,
    module: Module,
    vals: Seq<ExternView>,
    prepared: Prepared,
)
    requires
        prepared.is_for(module, vals),
        allocate::alloc_refusal(module, vals, prepared) is None,
    ensures
        ({
            let instance = allocate::instance_of(heap, module, vals, prepared);
            let imported = valid::import_counts(module.imports@);
            &&& allocate::space_sizes(instance) == valid::counts(module)
            &&& instance.funcs.take(imported.funcs as int) == link::funcs_of(vals)
            &&& instance.tables.take(imported.tables as int) == link::tables_of(vals)
            &&& instance.memories.take(imported.memories as int) == link::memories_of(vals)
            &&& instance.globals.take(imported.globals as int) == link::globals_of(vals)
            &&& forall|i: int|
                0 <= i < module.tables@.len() ==> #[trigger] instance.tables[imported.tables + i]
                    == prepared.tables@[i]->Ok_0
            &&& forall|i: int|
                0 <= i < module.memories@.len() ==> #[trigger] instance.memories[imported.memories
                    + i] == prepared.memories@[i]->Ok_0
            &&& forall|i: int|
                0 <= i < module.functions@.len() ==> {
                    &&& #[trigger] instance.funcs[imported.funcs + i] matches FuncView::Internal {
                        func_type,
                        module: home,
                        ..
                    }
                    &&& func_type == module.types@[module.functions@[i] as int]@
                    &&& home == ModuleId(heap.modules.len() as usize)
                }
        }),
{
    valid::lemma_linked_counts(module.type_views(), module.imports@, vals);
    let instance = allocate::instance_of(heap, module, vals, prepared);
    assert(instance.funcs.take(link::funcs_of(vals).len() as int) =~= link::funcs_of(vals));
    assert(instance.tables.take(link::tables_of(vals).len() as int) =~= link::tables_of(vals));
    assert(instance.memories.take(link::memories_of(vals).len() as int) =~= link::memories_of(
        vals,
    ));
    assert(instance.globals.take(link::globals_of(vals).len() as int) =~= link::globals_of(vals));
}

/// A module that exports something it imports gives out the very thing that it was given.
pub proof fn law_reexport(
    heap: HeapView,
    module: Module,
    vals: Seq<ExternView>,
    prepared: Prepared,
    k: int,
    e: int,
)
    requires
        0 <= k < vals.len(),
        0 <= e < module.exports@.len(),
        forall|j: int|
            e < j < module.exports@.len() ==> (#[trigger] module.exports@[j]).field@
                != module.exports@[e].field@,
        match (vals[k], module.exports@[e].internal) {
            (ExternView::Func(_), Internal::Function(idx)) => idx == link::funcs_of(
                vals.take(k),
            ).len(),
            (ExternView::Table(_), Internal::Table(idx)) => idx == link::tables_of(
                vals.take(k),
            ).len(),
            (ExternView::Memory(_), Internal::Memory(idx)) => idx == link::memories_of(
                vals.take(k),
            ).len(),
            (ExternView::Global(_), Internal::Global(idx)) => idx == link::globals_of(
                vals.take(k),
            ).len(),
            _ => false,
        },
    ensures
        ({
            let exports = allocate::instance_of(heap, module, vals, prepared).exports;
            let name = module.exports@[e].field@;
            exports.contains_key(name) && exports[name] == vals[k]
        }),
{
    law_imports_keep_their_order(vals, k);
    law_export_lookup(
        module.exports@,
        allocate::index_spaces(heap, module, vals, prepared),
        module.exports@[e].field@,
    );
}

/// A global that is imported is the same variable in both modules: a value that is set through
/// the handle of one is read through the index of the other.
pub proof fn law_imported_globals_are_shared(
    heap: HeapView,
    module: Module,
    vals: Seq<ExternView>,
    prepared: Prepared,
    k: int,
    val: RuntimeValue,
)
    requires
        0 <= k < vals.len(),
        vals[k] is Global,
        heap.has_extern(vals[k]),
    ensures
        ({
            let instance = allocate::instance_of(heap, module, vals, prepared);
            let place = link::globals_of(vals.take(k)).len() as int;
            let later = allocate::allocated(heap, module, vals, prepared);
            let id = vals[k]->Global_0;
            let set = HeapView {
                globals: later.globals.update(id.0 as int, GlobalView { val, mutable: true }),
                ..later
            };
            &&& instance.globals[place] == id
            &&& later.values(instance.globals)[place] == heap.globals[id.0 as int].val
            &&& set.values(instance.globals)[place] == val
        }),
{
    law_imports_keep_their_order(vals, k);
}

/// A module that is instantiated twice with the same values, whatever is done in between, gives two
/// instances. They share what they import. Each has functions and globals of its own: no function
/// that one defines is a function that the other defines, and no global that one defines is in the
/// other at all. Each has its own tables and memories where the execution engine gave them handles
/// of their own.
pub proof fn law_two_instances_of_one_module(
    heap: HeapView,
    between: HeapView,
    module: Module,
    vals: Seq<ExternView>,
    first: Prepared,
    second: Prepared,
)
    requires
        heap.has_externs(vals),
        first.is_for(module, vals),
        second.is_for(module, vals),
        allocate::alloc_refusal(module, vals, first) is None,
        allocate::alloc_refusal(module, vals, second) is None,
        allocate::allocated(heap, module, vals, first).grows_to(between),
        between.modules.len() < usize::MAX,
        between.globals.len() + module.globals@.len() <= usize::MAX,
    ensures
        ({
            let a = allocate::instance_of(heap, module, vals, first);
            let b = allocate::instance_of(between, module, vals, second);
            let after = allocate::allocated(between, module, vals, second);
            let imported = valid::import_counts(module.imports@);
            &&& heap.modules.len() != between.modules.len()
            &&& after.modules[heap.modules.len() as int] == a
            &&& after.modules[between.modules.len() as int] == b
            &&& a.funcs.take(imported.funcs as int) == b.funcs.take(imported.funcs as int)
            &&& a.tables.take(imported.tables as int) == b.tables.take(imported.tables as int)
            &&& a.memories.take(imported.memories as int) == b.memories.take(
                imported.memories as int,
            )
            &&& a.globals.take(imported.globals as int) == b.globals.take(imported.globals as int)
            &&& forall|i: int, j: int|
                imported.funcs <= i < a.funcs.len() && imported.funcs <= j < b.funcs.len()
                    ==> #[trigger] a.funcs[i] != #[trigger] b.funcs[j]
            &&& forall|i: int, j: int|
                imported.globals <= i < a.globals.len() && 0 <= j < b.globals.len()
                    ==> #[trigger] a.globals[i] != #[trigger] b.globals[j]
            &&& forall|i: int, j: int|
                0 <= i < a.globals.len() && imported.globals <= j < b.globals.len()
                    ==> #[trigger] a.globals[i] != #[trigger] b.globals[j]
            &&& forall|i: int, j: int|
                imported.tables <= i < a.tables.len() && imported.tables <= j < b.tables.len()
                    && first.tables@[i - imported.tables]->Ok_0.handle != second.tables@[j
                    - imported.tables]->Ok_0.handle ==> #[trigger] a.tables[i]
                    != #[trigger] b.tables[j]
            &&& forall|i: int, j: int|
                imported.memories <= i < a.memories.len() && imported.memories <= j
                    < b.memories.len() && first.memories@[i - imported.memories]->Ok_0.handle
                    != second.memories@[j - imported.memories]->Ok_0.handle
                    ==> #[trigger] a.memories[i] != #[trigger] b.memories[j]
        }),
{
    law_definitions_follow_imports(heap, module, vals, first);
    law_definitions_follow_imports(between, module, vals, second);
    valid::lemma_linked_counts(module.type_views(), module.imports@, vals);
    allocate::lemma_globals_of_belong(heap, vals);
    let a = allocate::instance_of(heap, module, vals, first);
    let b = allocate::instance_of(between, module, vals, second);
    let later = allocate::allocated(heap, module, vals, first);
    let imported = valid::import_counts(module.imports@);
    assert(later.modules[heap.modules.len() as int] == a);
    assert(between.modules[heap.modules.len() as int] == a);
    assert forall|i: int, j: int|
        imported.funcs <= i < a.funcs.len() && imported.funcs <= j
            < b.funcs.len() implies #[trigger] a.funcs[i] != #[trigger] b.funcs[j] by {
        let x = i - imported.funcs;
        let y = j - imported.funcs;
        assert(a.funcs[imported.funcs + x] is Internal);
        assert(b.funcs[imported.funcs + y] is Internal);
    }
    assert forall|i: int, j: int|
        imported.globals <= i < a.globals.len() && 0 <= j
            < b.globals.len() implies #[trigger] a.globals[i] != #[trigger] b.globals[j] by {
        if j < imported.globals {
            assert(heap.has_global(link::globals_of(vals)[j]));
        }
    }
    assert forall|i: int, j: int|
        0 <= i < a.globals.len() && imported.globals <= j
            < b.globals.len() implies #[trigger] a.globals[i] != #[trigger] b.globals[j] by {
        if i < imported.globals {
            assert(heap.has_global(link::globals_of(vals)[i]));
        }
    }
}

/// A value that is given to a global that one of two instances of a module defines is not seen by
/// the other instance.
pub proof fn law_own_globals_are_not_shared(
    heap: HeapView,
    between: HeapView,
    module: Module,
    vals: Seq<ExternView>,
    first: Prepared,
    second: Prepared,
    i: int,
    val: RuntimeValue,
)
    requires
        heap.has_externs(vals),
        first.is_for(module, vals),
        second.is_for(module, vals),
        allocate::alloc_refusal(module, vals, first) is None,
        allocate::alloc_refusal(module, vals, second) is None,
        allocate::allocated(heap, module, vals, first).grows_to(between),
        between.modules.len() < usize::MAX,
        between.globals.len() + module.globals@.len() <= usize::MAX,
        valid::import_counts(module.imports@).globals <= i < valid::counts(module).globals,
    ensures
        ({
            let a = allocate::instance_of(heap, module, vals, first);
            let b = allocate::instance_of(between, module, vals, second);
            let after = allocate::allocated(between, module, vals, second);
            let a_set = HeapView {
                globals: after.globals.update(
                    a.globals[i].0 as int,
                    GlobalView { val, mutable: true },
                ),
                ..after
            };
            let b_set = HeapView {
                globals: after.globals.update(
                    b.globals[i].0 as int,
                    GlobalView { val, mutable: true },
                ),
                ..after
            };
            &&& after.has_global(a.globals[i])
            &&& after.has_global(b.globals[i])
            &&& a_set.values(a.globals)[i] == val
            &&& a_set.values(b.globals) == after.values(b.globals)
            &&& b_set.values(b.globals)[i] == val
            &&& b_set.values(a.globals) == after.values(a.globals)
        }),
{
    law_two_instances_of_one_module(heap, between, module, vals, first, second);
    law_definitions_follow_imports(heap, module, vals, first);
    law_definitions_follow_imports(between, module, vals, second);
    valid::lemma_linked_counts(module.type_views(), module.imports@, vals);
    allocate::lemma_globals_of_belong(heap, vals);
    let a = allocate::instance_of(heap, module, vals, first);
    let b = allocate::instance_of(between, module, vals, second);
    let after = allocate::allocated(between, module, vals, second);
    let a_set = HeapView {
        globals: after.globals.update(a.globals[i].0 as int, GlobalView { val, mutable: true }),
        ..after
    };
    let b_set = HeapView {
        globals: after.globals.update(b.globals[i].0 as int, GlobalView { val, mutable: true }),
        ..after
    };
    assert forall|j: int| 0 <= j < b.globals.len() implies a_set.values(b.globals)[j]
        == after.values(b.globals)[j] by {
        assert(a.globals[i] != b.globals[j]);
        if j < link::globals_of(vals).len() {
            assert(heap.has_global(link::globals_of(vals)[j]));
        }
    }
    assert(a_set.values(b.globals) =~= after.values(b.globals));
    assert forall|j: int| 0 <= j < a.globals.len() implies b_set.values(a.globals)[j]
        == after.values(a.globals)[j] by {
        assert(a.globals[j] != b.globals[i]);
        if j < link::globals_of(vals).len() {
            assert(heap.has_global(link::globals_of(vals)[j]));
        }
    }
    assert(b_set.values(a.globals) =~= after.values(a.globals));
}

/// The globals that are defined first do not depend on those that follow.
proof fn lemma_defined_values_prefix(
    entries: Seq<GlobalEntry>,
    imported: Seq<RuntimeValue>,
    n: int,
)
    requires
        0 <= n <= entries.len(),
    ensures
        allocate::defined_values(entries.take(n), imported) == allocate::defined_values(
            entries,
            imported,
        ).take(n),
    decreases entries.len(),
{
    allocate::lemma_defined_values_len(entries, imported);
    if n == entries.len() {
        assert(entries.take(n) =~= entries);
        assert(allocate::defined_values(entries, imported).take(n) =~= allocate::defined_values(
            entries,
            imported,
        ));
    } else {
        let before = entries.drop_last();
        allocate::lemma_defined_values_len(before, imported);
        lemma_defined_values_prefix(before, imported, n);
        assert(before.take(n) =~= entries.take(n));
        assert(allocate::defined_values(entries, imported).take(n) =~= allocate::defined_values(
            before,
            imported,
        ).take(n));
    }
}

/// A global that a module defines begins with the value of its initializer, which reads the globals
/// that come before it in the instance.
pub proof fn law_globals_begin_with_their_initializers(
    heap: HeapView,
    module: Module,
    vals: Seq<ExternView>,
    i: int,
)
    requires
        0 <= i < module.globals@.len(),
    ensures
        ({
            let values = instantiate::initial_values(heap, module, vals);
            let place = link::globals_of(vals).len() + i;
            values[place] == init::init_value(module.globals@[i].init_expr, values.take(place))
        }),
{
    let entries = module.globals@;
    let imported = heap.values(link::globals_of(vals));
    let values = instantiate::initial_values(heap, module, vals);
    let defined = allocate::defined_values(entries, imported);
    allocate::lemma_defined_values_len(entries, imported);
    lemma_defined_values_prefix(entries, imported, i);
    lemma_defined_values_prefix(entries, imported, i + 1);
    let upto = entries.take(i + 1);
    assert(upto.drop_last() =~= entries.take(i));
    assert(upto.last() == entries[i]);
    allocate::lemma_defined_values_len(entries.take(i), imported);
    assert(allocate::defined_values(upto, imported)[i] == defined[i]);
    assert(imported + allocate::defined_values(entries.take(i), imported) =~= values.take(
        imported.len() + i,
    ));
}

/// Where everything that was asked for is done, but for functions that could not be put into a
/// table, the instance is ready.
pub proof fn law_instantiation_succeeds(v: InstantiationView, outcomes: Seq<Result<(), ErrorView>>)
    requires
        v.failure is None,
        outcomes.len() == v.remaining.len(),
        forall|i: int|
            0 <= i < outcomes.len() ==> #[trigger] outcomes[i] is Ok || v.remaining[i] is SetTable,
    ensures
        v.run(outcomes).remaining.len() == 0,
        v.run(outcomes).result() == Ok::<ModuleId, ErrorView>(v.instance),
    decreases outcomes.len(),
{
    if outcomes.len() > 0 {
        let next = v.completed(outcomes[0]);
        assert(outcomes[0] is Ok || v.remaining[0] is SetTable);
        assert forall|i: int| 0 <= i < outcomes.drop_first().len() implies #[trigger] outcomes.drop_first()[i] is Ok
            || next.remaining[i] is SetTable by {
            assert(outcomes[i + 1] is Ok || v.remaining[i + 1] is SetTable);
        }
        law_instantiation_succeeds(next, outcomes.drop_first());
    }
}

/// The first failure, other than of putting a function into a table, ends the instantiation:
/// nothing more is to be done, and the failure is what comes of it.
pub proof fn law_instantiation_ends_with_first_failure(
    v: InstantiationView,
    outcomes: Seq<Result<(), ErrorView>>,
    k: int,
)
    requires
        v.failure is None,
        0 <= k < v.remaining.len(),
        k < outcomes.len(),
        forall|i: int|
            0 <= i < k ==> #[trigger] outcomes[i] is Ok || v.remaining[i] is SetTable,
        outcomes[k] is Err,
        !(v.remaining[k] is SetTable),
    ensures
        v.run(outcomes.take(k)).remaining == v.remaining.skip(k),
        v.run(outcomes.take(k + 1)).remaining.len() == 0,
        v.run(outcomes).result() == Err::<ModuleId, ErrorView>(outcomes[k]->Err_0),
    decreases k,
{
    let next = v.completed(outcomes[0]);
    let rest = outcomes.drop_first();
    if k == 0 {
        assert(outcomes.take(0) =~= Seq::empty());
        assert(v.remaining.skip(0) =~= v.remaining);
        assert(outcomes.take(1)[0] == outcomes[0]);
        assert(next.run(outcomes.take(1).drop_first()) == next);
        assert(next.run(rest) == next);
    } else {
        assert(outcomes[0] is Ok || v.remaining[0] is SetTable);
        assert forall|i: int| 0 <= i < k - 1 implies #[trigger] rest[i] is Ok
            || next.remaining[i] is SetTable by {
            assert(outcomes[i + 1] is Ok || v.remaining[i + 1] is SetTable);
        }
        law_instantiation_ends_with_first_failure(next, rest, k - 1);
        assert(outcomes.take(k).drop_first() =~= rest.take(k - 1));
        assert(outcomes.take(k + 1).drop_first() =~= rest.take(k));
        assert(next.remaining.skip(k - 1) =~= v.remaining.skip(k));
    }
}

/// Element segments fill the table in their order: the functions of a segment go to successive
/// places, from its offset on.
pub proof fn law_elements_fill_the_table(
    segments: Seq<ElementSegment>,
    instance: ModuleView,
    values: Seq<RuntimeValue>,
    i: int,
    j: int,
)
    requires
        0 <= i < segments.len(),
        0 <= j < segments[i].members@.len(),
        instantiate::element_fits(segments[i], values),
    ensures
        ({
            let actions = instantiate::elements_actions(segments, instance, values);
            let before = instantiate::elements_actions(segments.take(i), instance, values);
            &&& before.len() + j < actions.len()
            &&& actions[before.len() + j] matches ActionView::SetTable { table, offset, func }
            &&& table == instance.tables[valid::DEFAULT_TABLE_INDEX as int]
            &&& offset == instantiate::offset_of(segments[i].offset, values).unwrap() + j
            &&& func == instance.funcs[segments[i].members@[j] as int]
        }),
    decreases segments.len(),
{
    if i == segments.len() - 1 {
        assert(segments.take(i) =~= segments.drop_last());
    } else {
        assert(segments.drop_last().take(i) =~= segments.take(i));
        law_elements_fill_the_table(segments.drop_last(), instance, values, i, j);
    }
}

/// Nothing but functions is put into tables for element segments.
proof fn lemma_elements_only_set_tables(
    segments: Seq<ElementSegment>,
    instance: ModuleView,
    values: Seq<RuntimeValue>,
)
    ensures
        forall|i: int|
            0 <= i < instantiate::elements_actions(segments, instance, values).len()
                ==> #[trigger] instantiate::elements_actions(segments, instance, values)[i] is SetTable,
    decreases segments.len(),
{
    if segments.len() > 0 {
        let before = instantiate::elements_actions(segments.drop_last(), instance, values);
        lemma_elements_only_set_tables(segments.drop_last(), instance, values);
        assert forall|i: int|
            0 <= i < instantiate::elements_actions(
                segments,
                instance,
                values,
            ).len() implies #[trigger] instantiate::elements_actions(
            segments,
            instance,
            values,
        )[i] is SetTable by {
            if i < before.len() {
                assert(before[i] is SetTable);
            }
        }
    }
}

/// Tables are filled first, then memories, one write for each data segment in order; a function is
/// called last, without arguments, if the module has a start function, and else none is.
pub proof fn law_order_of_actions(module: Module, instance: ModuleView, values: Seq<RuntimeValue>)
    ensures
        ({
            let actions = instantiate::plan(module, instance, values);
            let filled = instantiate::elements_actions(module.elements@, instance, values).len();
            let written = module.data@.len();
            let called: nat = if module.start is Some {
                1
            } else {
                0
            };
            &&& actions.len() == filled + written + called
            &&& forall|i: int| 0 <= i < filled ==> #[trigger] actions[i] is SetTable
            &&& forall|i: int|
                filled <= i < filled + written ==> {
                    &&& #[trigger] actions[i] matches ActionView::SetMemory { value, .. }
                    &&& value == module.data@[i - filled].value@
                }
            &&& module.start matches Some(idx) ==> actions.last() == (ActionView::Invoke {
                func: instance.funcs[idx as int],
                args: Seq::empty(),
            })
        }),
{
    lemma_elements_only_set_tables(module.elements@, instance, values);
    let filled = instantiate::elements_actions(module.elements@, instance, values);
    let actions = instantiate::plan(module, instance, values);
    assert forall|i: int| 0 <= i < filled.len() implies #[trigger] actions[i] is SetTable by {
        assert(filled[i] is SetTable);
    }
}

} // verus!
