//! Laws of instantiation: what an instance holds, in terms of the module, of the values that it
//! imports and of what the execution engine answered.

use vstd::prelude::*;

use crate::allocate;
use crate::allocate::Prepared;
use crate::error;
use crate::error::{Error, Reason};
use crate::func::{FuncInstance, FuncView};
use crate::heap::{Heap, HeapView};
use crate::init;
use crate::instance::{ExternVal, ExternView};
use crate::instantiate;
use crate::instantiate::Instantiation;
use crate::laws;
use crate::laws::linking;
use crate::link;
use crate::module::{External, Internal, Module, Opcode};
use crate::ready::check_imports;
use crate::store::Store;
use crate::valid;
use crate::value::RuntimeValue;

verus! {

/// What holds of the sizes and the contents of a new instance follows from these facts.
pub proof fn lemma_instantiated(
    store: &mut Store,
    heap: &mut Heap,
    module: Module,
    vals: &[ExternVal],
    prepared: Prepared,
    result: Result<Instantiation, Error>,
)
    requires
        instantiate::is_ready(old(heap)@, module, link::extern_views(vals@), prepared),
        call_ensures(Store::instantiate_module, (store, heap, &module, vals, prepared), result),
        result is Ok,
    ensures
        ({
            let views = link::extern_views(vals@);
            let instance = allocate::instance_of(old(heap)@, module, views, prepared);
            &&& prepared.validation is Ok
            &&& valid::is_valid(module, prepared.validation->Ok_0.labels@)
            &&& allocate::alloc_refusal(module, views, prepared) is None
            &&& final(heap)@ == allocate::allocated(old(heap)@, module, views, prepared)
            &&& final(heap)@.modules[old(heap)@.modules.len() as int] == instance
            &&& allocate::space_sizes(instance) == valid::counts(module)
            &&& old(heap)@.modules.len() < usize::MAX
            &&& old(heap)@.globals.len() + module.globals@.len() <= usize::MAX
            &&& instantiate::initial_values(old(heap)@, module, views) == final(heap)@.values(
                instance.globals,
            )
        }),
{
    let views = link::extern_views(vals@);
    final(heap).lemma_sizes();
    laws::law_definitions_follow_imports(old(heap)@, module, views, prepared);
    instantiate::lemma_allocated_values(old(heap)@, module, views, prepared);
}

/// A module is instantiated where it is valid, there is one value for each import, each value
/// satisfies its import and every table and memory could be created; and only there. A function
/// satisfies an import by its signature, a table or a memory by its bounds, a global by being one.
pub proof fn law_instantiated_or_refused(
    store: &mut Store,
    heap: &mut Heap,
    module: Module,
    vals: &[ExternVal],
    prepared: Prepared,
    result: Result<Instantiation, Error>,
    checked: Result<(), Error>,
)
    requires
        instantiate::is_ready(old(heap)@, module, link::extern_views(vals@), prepared),
        call_ensures(Store::instantiate_module, (store, heap, &module, vals, prepared), result),
        prepared.validation is Ok ==> call_ensures(check_imports, (&module, vals), checked),
    ensures
        result is Ok <==> {
            &&& prepared.validation is Ok
            &&& checked is Ok
            &&& forall|i: int|
                0 <= i < prepared.tables@.len() ==> #[trigger] prepared.tables@[i] is Ok
            &&& forall|i: int|
                0 <= i < prepared.memories@.len() ==> #[trigger] prepared.memories@[i] is Ok
        },
        result is Ok <==> {
            &&& prepared.validation is Ok
            &&& vals@.len() == module.imports@.len()
            &&& forall|i: int|
                #![trigger vals@[i]]
                0 <= i < vals@.len() ==> match (module.imports@[i].entry, vals@[i]) {
                    (External::Function(idx), ExternVal::Func(func)) => {
                        let expected = module.types@[idx as int];
                        match *func {
                            FuncInstance::Internal { func_type, .. } => func_type.params@
                                == expected.params@ && func_type.return_type
                                == expected.return_type,
                            FuncInstance::Host { func_type, .. } => func_type.params@
                                == expected.params@ && func_type.return_type
                                == expected.return_type,
                        }
                    },
                    (External::Table(t), ExternVal::Table(table)) => table.limits.initial
                        >= t.limits.initial && (t.limits.maximum is None || (
                    table.limits.maximum is Some && table.limits.maximum->0
                        <= t.limits.maximum->0)),
                    (External::Memory(t), ExternVal::Memory(memory)) => memory.limits.initial
                        >= t.limits.initial && (t.limits.maximum is None || (
                    memory.limits.maximum is Some && memory.limits.maximum->0
                        <= t.limits.maximum->0)),
                    (External::Global(_), ExternVal::Global(_)) => true,
                    _ => false,
                }
            &&& forall|i: int|
                0 <= i < prepared.tables@.len() ==> #[trigger] prepared.tables@[i] is Ok
            &&& forall|i: int|
                0 <= i < prepared.memories@.len() ==> #[trigger] prepared.memories@[i] is Ok
        },
{
    let views = link::extern_views(vals@);
    laws::law_allocated_iff_all_checks_pass(module, views, prepared);
    let tables = allocate::failures(prepared.tables@);
    let memories = allocate::failures(prepared.memories@);
    error::lemma_no_refusal(tables);
    error::lemma_no_refusal(memories);
    if prepared.validation is Ok {
        linking::law_check_imports(module, vals, checked);
        if forall|i: int|
            0 <= i < prepared.tables@.len() ==> #[trigger] prepared.tables@[i] is Ok {
            assert forall|i: int| 0 <= i < tables.len() implies #[trigger] tables[i] is None by {
                assert(prepared.tables@[i] is Ok);
            }
        }
        if forall|i: int|
            0 <= i < prepared.memories@.len() ==> #[trigger] prepared.memories@[i] is Ok {
            assert forall|i: int| 0 <= i < memories.len() implies #[trigger] memories[i] is None by {
                assert(prepared.memories@[i] is Ok);
            }
        }
    }
}

/// A function of another signature than the one that is asked for is never accepted, wherever it
/// stands among the imports: instantiation of a valid module is refused.
pub proof fn law_wrong_signature_is_refused(
    store: &mut Store,
    heap: &mut Heap,
    module: Module,
    vals: &[ExternVal],
    prepared: Prepared,
    result: Result<Instantiation, Error>,
    checked: Result<(), Error>,
    k: int,
)
    requires
        instantiate::is_ready(old(heap)@, module, link::extern_views(vals@), prepared),
        call_ensures(Store::instantiate_module, (store, heap, &module, vals, prepared), result),
        prepared.validation is Ok,
        call_ensures(check_imports, (&module, vals), checked),
        0 <= k < vals@.len(),
        vals@.len() == module.imports@.len(),
        module.imports@[k].entry matches External::Function(idx) && vals@[k] matches ExternVal::Func(
            func,
        ) && ({
            let expected = module.types@[idx as int];
            let actual = match *func {
                FuncInstance::Internal { func_type, .. } => func_type,
                FuncInstance::Host { func_type, .. } => func_type,
            };
            actual.params@ != expected.params@ || actual.return_type != expected.return_type
        }),
    ensures
        result matches Err(Error::Initialization(_)),
        final(heap)@ == old(heap)@,
{
    linking::law_check_imports(module, vals, checked);
    assert(vals@[k] is Func);
    assert(checked is Err);
    let views = link::extern_views(vals@);
    let checks = link::import_checks(module.type_views(), module.imports@, views);
    lemma_import_refusals_are_of_initialization(checks, module, views);
}

/// Refusals of imports say that the module cannot be instantiated with what it was given.
proof fn lemma_import_refusals_are_of_initialization(
    checks: Seq<Option<crate::error::ErrorView>>,
    module: Module,
    views: Seq<ExternView>,
)
    requires
        checks.len() <= module.imports@.len(),
        forall|i: int|
            0 <= i < checks.len() ==> #[trigger] checks[i] == link::import_refusal(
                module.type_views(),
                module.imports@[i],
                views[i],
                i,
            ),
    ensures
        error::first_refusal(checks) matches Some(e) ==> e is Initialization,
    decreases checks.len(),
{
    if checks.len() > 0 {
        lemma_import_refusals_are_of_initialization(checks.drop_last(), module, views);
        assert(checks.last() == checks[checks.len() - 1]);
    }
}

/// A module is refused for the first thing that fails: validation, then the imports, then the
/// tables and then the memories, each in order. Where it is refused, the heap stays as it is.
pub proof fn law_refusals(
    store: &mut Store,
    heap: &mut Heap,
    module: Module,
    vals: &[ExternVal],
    prepared: Prepared,
    result: Result<Instantiation, Error>,
    checked: Result<(), Error>,
    k: int,
)
    requires
        instantiate::is_ready(old(heap)@, module, link::extern_views(vals@), prepared),
        call_ensures(Store::instantiate_module, (store, heap, &module, vals, prepared), result),
        prepared.validation is Ok ==> call_ensures(check_imports, (&module, vals), checked),
    ensures
        prepared.validation matches Err(e) ==> (result matches Err(r) && r@ == e@),
        prepared.validation is Ok && checked is Err ==> (result matches Err(r) && r@
            == checked->Err_0@),
        prepared.validation is Ok && vals@.len() != module.imports@.len() ==> {
            &&& result matches Err(Error::Initialization(Reason::Message(message)))
            &&& message@ == "extern_vals length is not equal to import section entries"@
        },
        prepared.validation is Ok && checked is Ok && 0 <= k < prepared.tables@.len() && (forall|
            i: int,
        |
            0 <= i < k ==> #[trigger] prepared.tables@[i] is Ok) && prepared.tables@[k] is Err ==> (
        result matches Err(r) && r@ == prepared.tables@[k]->Err_0@),
        prepared.validation is Ok && checked is Ok && (forall|i: int|
            0 <= i < prepared.tables@.len() ==> #[trigger] prepared.tables@[i] is Ok) && 0 <= k
            < prepared.memories@.len() && (forall|i: int|
            0 <= i < k ==> #[trigger] prepared.memories@[i] is Ok) && prepared.memories@[k] is Err
            ==> (result matches Err(r) && r@ == prepared.memories@[k]->Err_0@),
        result is Err ==> final(heap)@ == old(heap)@,
{
    let tables = allocate::failures(prepared.tables@);
    let memories = allocate::failures(prepared.memories@);
    if prepared.validation is Ok && checked is Ok {
        if 0 <= k < tables.len() && (forall|i: int|
            0 <= i < k ==> #[trigger] prepared.tables@[i] is Ok) && prepared.tables@[k] is Err {
            error::lemma_no_refusal(tables.take(k));
            assert forall|i: int| 0 <= i < k implies #[trigger] tables.take(k)[i] is None by {
                assert(prepared.tables@[i] is Ok);
            }
            error::lemma_first_refusal_is_final(tables, k);
        }
        if forall|i: int| 0 <= i < tables.len() ==> #[trigger] prepared.tables@[i] is Ok {
            error::lemma_no_refusal(tables);
            assert forall|i: int| 0 <= i < tables.len() implies #[trigger] tables[i] is None by {
                assert(prepared.tables@[i] is Ok);
            }
            if 0 <= k < memories.len() && (forall|i: int|
                0 <= i < k ==> #[trigger] prepared.memories@[i] is Ok)
                && prepared.memories@[k] is Err {
                error::lemma_no_refusal(memories.take(k));
                assert forall|i: int| 0 <= i < k implies #[trigger] memories.take(k)[i] is None by {
                    assert(prepared.memories@[i] is Ok);
                }
                error::lemma_first_refusal_is_final(memories, k);
            }
        }
    }
}

/// An instance has the types of its module, in order, and in each index space begins with what is
/// imported, in order. What the module defines follows, and nothing else.
pub proof fn law_types_and_imports(
    store: &mut Store,
    heap: &mut Heap,
    module: Module,
    vals: &[ExternVal],
    prepared: Prepared,
    result: Result<Instantiation, Error>,
)
    requires
        instantiate::is_ready(old(heap)@, module, link::extern_views(vals@), prepared),
        call_ensures(Store::instantiate_module, (store, heap, &module, vals, prepared), result),
        result is Ok,
    ensures
        ({
            let instance = final(heap)@.modules[old(heap)@.modules.len() as int];
            let funcs = vals@.filter(|v: ExternVal| v is Func).map_values(
                |v: ExternVal| v->Func_0@,
            );
            let tables = vals@.filter(|v: ExternVal| v is Table).map_values(
                |v: ExternVal| *v->Table_0,
            );
            let memories = vals@.filter(|v: ExternVal| v is Memory).map_values(
                |v: ExternVal| *v->Memory_0,
            );
            let globals = vals@.filter(|v: ExternVal| v is Global).map_values(
                |v: ExternVal| v->Global_0,
            );
            &&& instance.types.len() == module.types@.len()
            &&& forall|i: int|
                0 <= i < module.types@.len() ==> (#[trigger] instance.types[i]).params
                    == module.types@[i].params@ && instance.types[i].return_type
                    == module.types@[i].return_type
            &&& instance.funcs.len() == funcs.len() + module.functions@.len()
            &&& instance.tables.len() == tables.len() + module.tables@.len()
            &&& instance.memories.len() == memories.len() + module.memories@.len()
            &&& instance.globals.len() == globals.len() + module.globals@.len()
            &&& instance.funcs.take(funcs.len() as int) == funcs
            &&& instance.tables.take(tables.len() as int) == tables
            &&& instance.memories.take(memories.len() as int) == memories
            &&& instance.globals.take(globals.len() as int) == globals
        }),
{
    lemma_instantiated(store, heap, module, vals, prepared, result);
    linking::law_imported_values_by_kind(vals@);
    let views = link::extern_views(vals@);
    laws::law_definitions_follow_imports(old(heap)@, module, views, prepared);
    valid::lemma_linked_counts(module.type_views(), module.imports@, views);
}

/// A function that a module defines has the parameter types and the return type that the module
/// declares for it, runs in the new instance, and has the locals, the instructions and the labels
/// that the code section and validation give for it.
pub proof fn law_defined_functions(
    store: &mut Store,
    heap: &mut Heap,
    module: Module,
    vals: &[ExternVal],
    prepared: Prepared,
    result: Result<Instantiation, Error>,
    i: int,
)
    requires
        instantiate::is_ready(old(heap)@, module, link::extern_views(vals@), prepared),
        call_ensures(Store::instantiate_module, (store, heap, &module, vals, prepared), result),
        result is Ok,
        0 <= i < module.functions@.len(),
    ensures
        ({
            let instance = final(heap)@.modules[old(heap)@.modules.len() as int];
            let place = instance.funcs.len() - module.functions@.len() + i;
            let declared = module.types@[module.functions@[i] as int];
            &&& 0 <= place < instance.funcs.len()
            &&& instance.funcs[place] matches FuncView::Internal { func_type, module: home, body }
            &&& func_type.params == declared.params@
            &&& func_type.return_type == declared.return_type
            &&& home.0 == old(heap)@.modules.len()
            &&& body.locals == module.bodies@[i].locals@
            &&& body.opcodes.len() == module.bodies@[i].code@.len()
            &&& forall|j: int|
                0 <= j < body.opcodes.len() ==> #[trigger] body.opcodes[j]
                    == module.bodies@[i].code@[j]@
            &&& prepared.validation matches Ok(aux)
            &&& body.labels == aux.labels@[i as usize]@
        }),
{
    lemma_instantiated(store, heap, module, vals, prepared, result);
    let views = link::extern_views(vals@);
    valid::lemma_linked_counts(module.type_views(), module.imports@, views);
    assert(module.functions@[i] < module.types@.len());
    let instance = final(heap)@.modules[old(heap)@.modules.len() as int];
    let place = instance.funcs.len() - module.functions@.len() + i;
    let own = allocate::defined_funcs(
        module,
        crate::func::ModuleId(old(heap)@.modules.len() as usize),
        prepared.validation->Ok_0.labels@,
    );
    assert(instance.funcs[place] == own[i]);
    assert(own[i]->body.opcodes == crate::module::opcode_views(module.bodies@[i].code@));
}

/// The tables and the memories that a module defines are those that the execution engine created
/// for it, in order.
pub proof fn law_defined_tables_and_memories(
    store: &mut Store,
    heap: &mut Heap,
    module: Module,
    vals: &[ExternVal],
    prepared: Prepared,
    result: Result<Instantiation, Error>,
    i: int,
)
    requires
        instantiate::is_ready(old(heap)@, module, link::extern_views(vals@), prepared),
        call_ensures(Store::instantiate_module, (store, heap, &module, vals, prepared), result),
        result is Ok,
    ensures
        ({
            let instance = final(heap)@.modules[old(heap)@.modules.len() as int];
            let first_table = instance.tables.len() - module.tables@.len();
            let first_memory = instance.memories.len() - module.memories@.len();
            &&& prepared.tables@.len() == module.tables@.len()
            &&& prepared.memories@.len() == module.memories@.len()
            &&& 0 <= i < module.tables@.len() ==> prepared.tables@[i] == Ok::<_, Error>(
                instance.tables[first_table + i],
            )
            &&& 0 <= i < module.memories@.len() ==> prepared.memories@[i] == Ok::<_, Error>(
                instance.memories[first_memory + i],
            )
        }),
{
    lemma_instantiated(store, heap, module, vals, prepared, result);
    let views = link::extern_views(vals@);
    laws::law_allocated_iff_all_checks_pass(module, views, prepared);
    laws::law_definitions_follow_imports(old(heap)@, module, views, prepared);
    valid::lemma_linked_counts(module.type_views(), module.imports@, views);
    if 0 <= i < module.tables@.len() {
        assert(prepared.tables@[i] is Ok);
    }
    if 0 <= i < module.memories@.len() {
        assert(prepared.memories@[i] is Ok);
    }
}

/// A global that a module defines is a new one. It is mutable just where the module declares it so,
/// and begins with the constant of its initializer, or with the value of the global of the
/// instance that its initializer reads.
pub proof fn law_defined_globals(
    store: &mut Store,
    heap: &mut Heap,
    module: Module,
    vals: &[ExternVal],
    prepared: Prepared,
    result: Result<Instantiation, Error>,
    i: int,
)
    requires
        instantiate::is_ready(old(heap)@, module, link::extern_views(vals@), prepared),
        call_ensures(Store::instantiate_module, (store, heap, &module, vals, prepared), result),
        result is Ok,
        0 <= i < module.globals@.len(),
    ensures
        ({
            let instance = final(heap)@.modules[old(heap)@.modules.len() as int];
            let place = instance.globals.len() - module.globals@.len() + i;
            let id = instance.globals[place];
            let global = final(heap)@.globals[id.0 as int];
            &&& 0 <= place < instance.globals.len()
            &&& id.0 == old(heap)@.globals.len() + i
            &&& global.mutable == module.globals@[i].global_type.is_mutable
            &&& match module.globals@[i].init_expr.code@[0] {
                Opcode::I32Const(v) => global.val == RuntimeValue::I32(v),
                Opcode::I64Const(v) => global.val == RuntimeValue::I64(v),
                Opcode::F32Const(v) => global.val == RuntimeValue::F32(v),
                Opcode::F64Const(v) => global.val == RuntimeValue::F64(v),
                Opcode::GetGlobal(idx) => idx < place && global.val
                    == final(heap)@.globals[instance.globals[idx as int].0 as int].val,
                _ => false,
            }
        }),
{
    lemma_instantiated(store, heap, module, vals, prepared, result);
    let views = link::extern_views(vals@);
    valid::lemma_linked_counts(module.type_views(), module.imports@, views);
    allocate::lemma_defined_values_len(
        module.globals@,
        old(heap)@.values(link::globals_of(views)),
    );
    laws::law_globals_begin_with_their_initializers(old(heap)@, module, views, i);
    let instance = final(heap)@.modules[old(heap)@.modules.len() as int];
    let values = instantiate::initial_values(old(heap)@, module, views);
    let place = link::globals_of(views).len() + i;
    assert(init::is_const_expr(module.globals@[i].init_expr, place as nat));
    assert(values[place] == final(heap)@.globals[instance.globals[place].0 as int].val);
    assert(values.take(place).len() == place);
    if let Opcode::GetGlobal(idx) = module.globals@[i].init_expr.code@[0] {
        assert(values.take(place)[idx as int] == values[idx as int]);
    }
}

/// Instantiation adds one instance, under the handle that it gives out, and the globals that the
/// module defines. All other instances and all other globals stay as they are.
pub proof fn law_rest_of_the_heap(
    store: &mut Store,
    heap: &mut Heap,
    module: Module,
    vals: &[ExternVal],
    prepared: Prepared,
    result: Result<Instantiation, Error>,
)
    requires
        instantiate::is_ready(old(heap)@, module, link::extern_views(vals@), prepared),
        call_ensures(Store::instantiate_module, (store, heap, &module, vals, prepared), result),
        result is Ok,
    ensures
        result->Ok_0@.instance.0 == old(heap)@.modules.len(),
        result->Ok_0@.failure is None,
        final(heap)@.modules.len() == old(heap)@.modules.len() + 1,
        final(heap)@.globals.len() == old(heap)@.globals.len() + module.globals@.len(),
        forall|i: int|
            0 <= i < old(heap)@.modules.len() ==> #[trigger] final(heap)@.modules[i]
                == old(heap)@.modules[i],
        forall|i: int|
            0 <= i < old(heap)@.globals.len() ==> #[trigger] final(heap)@.globals[i]
                == old(heap)@.globals[i],
{
    lemma_instantiated(store, heap, module, vals, prepared, result);
}

/// An instance exports, under each name that the export section gives, what the last entry with
/// that name refers to: the function, the table, the memory or the global of the instance with that
/// index. It exports nothing else.
pub proof fn law_exports(
    store: &mut Store,
    heap: &mut Heap,
    module: Module,
    vals: &[ExternVal],
    prepared: Prepared,
    result: Result<Instantiation, Error>,
    name: Seq<char>,
    e: int,
)
    requires
        instantiate::is_ready(old(heap)@, module, link::extern_views(vals@), prepared),
        call_ensures(Store::instantiate_module, (store, heap, &module, vals, prepared), result),
        result is Ok,
    ensures
        ({
            let instance = final(heap)@.modules[old(heap)@.modules.len() as int];
            &&& instance.exports.contains_key(name) <==> exists|j: int|
                0 <= j < module.exports@.len() && (#[trigger] module.exports@[j]).field@ == name
            &&& 0 <= e < module.exports@.len() && module.exports@[e].field@ == name && (forall|
                j: int,
            |
                e < j < module.exports@.len() ==> (#[trigger] module.exports@[j]).field@ != name)
                ==> match module.exports@[e].internal {
                Internal::Function(idx) => idx < instance.funcs.len() && instance.exports[name]
                    == ExternView::Func(instance.funcs[idx as int]),
                Internal::Table(idx) => idx < instance.tables.len() && instance.exports[name]
                    == ExternView::Table(instance.tables[idx as int]),
                Internal::Memory(idx) => idx < instance.memories.len() && instance.exports[name]
                    == ExternView::Memory(instance.memories[idx as int]),
                Internal::Global(idx) => idx < instance.globals.len() && instance.exports[name]
                    == ExternView::Global(instance.globals[idx as int]),
            }
        }),
{
    lemma_instantiated(store, heap, module, vals, prepared, result);
    let views = link::extern_views(vals@);
    let spaces = allocate::index_spaces(old(heap)@, module, views, prepared);
    laws::law_export_lookup(module.exports@, spaces, name);
    if 0 <= e < module.exports@.len() {
        assert(valid::export_exists(module.exports@[e], valid::counts(module)));
    }
}

/// An instance whose module is refused is left as it was filled so far. It has no globals but the
/// imported ones, and no exports.
pub proof fn law_refused_instance(
    heap: HeapView,
    module: Module,
    vals: Seq<ExternView>,
    prepared: Prepared,
    k: int,
)
    requires
        allocate::alloc_refusal(module, vals, prepared) is Some,
    ensures
        ({
            let left = allocate::refused_instance(heap, module, vals, prepared);
            let linked = link::link_refusal(module.type_views(), module.imports@, vals) is None;
            &&& left.exports == Map::<Seq<char>, ExternView>::empty()
            &&& prepared.validation is Err ==> left.types.len() == 0
            &&& prepared.validation is Ok ==> left.types.len() == module.types@.len() && forall|
                i: int,
            |
                0 <= i < module.types@.len() ==> #[trigger] left.types[i] == module.types@[i]@
            &&& prepared.validation is Err || vals.len() != module.imports@.len()
                ==> left.funcs.len() == 0 && left.tables.len() == 0 && left.memories.len() == 0
                && left.globals.len() == 0
            &&& prepared.validation is Ok && linked ==> {
                &&& left.globals == link::globals_of(vals)
                &&& left.funcs.len() == link::funcs_of(vals).len() + module.functions@.len()
            }
            &&& prepared.validation is Ok && linked && 0 <= k < prepared.tables@.len() && (forall|
                i: int,
            |
                0 <= i < k ==> #[trigger] prepared.tables@[i] is Ok) && prepared.tables@[k] is Err
                ==> {
                &&& left.tables.len() == link::tables_of(vals).len() + k
                &&& forall|i: int|
                    0 <= i < k ==> #[trigger] left.tables[link::tables_of(vals).len() + i]
                        == prepared.tables@[i]->Ok_0
                &&& left.memories == link::memories_of(vals)
            }
            &&& prepared.validation is Ok && linked && (forall|i: int|
                0 <= i < prepared.tables@.len() ==> #[trigger] prepared.tables@[i] is Ok) && 0 <= k
                < prepared.memories@.len() && (forall|i: int|
                0 <= i < k ==> #[trigger] prepared.memories@[i] is Ok)
                && prepared.memories@[k] is Err ==> {
                &&& left.tables.len() == link::tables_of(vals).len() + prepared.tables@.len()
                &&& left.memories.len() == link::memories_of(vals).len() + k
                &&& forall|i: int|
                    0 <= i < k ==> #[trigger] left.memories[link::memories_of(vals).len() + i]
                        == prepared.memories@[i]->Ok_0
            }
        }),
{
    let tables = allocate::failures(prepared.tables@);
    let memories = allocate::failures(prepared.memories@);
    let left = allocate::refused_instance(heap, module, vals, prepared);
    assert(vals.take(0) =~= Seq::empty());
    if 0 <= k < tables.len() && (forall|i: int|
        0 <= i < k ==> #[trigger] prepared.tables@[i] is Ok) && prepared.tables@[k] is Err {
        error::lemma_no_refusal(tables.take(k));
        assert forall|i: int| 0 <= i < k implies #[trigger] tables.take(k)[i] is None by {
            assert(prepared.tables@[i] is Ok);
        }
        error::lemma_first_refusal_is_final(tables, k);
        assert(left.memories =~= link::memories_of(vals) || prepared.validation is Err
            || link::link_refusal(module.type_views(), module.imports@, vals) is Some);
    }
    if forall|i: int| 0 <= i < tables.len() ==> #[trigger] prepared.tables@[i] is Ok {
        error::lemma_no_refusal(tables);
        assert forall|i: int| 0 <= i < tables.len() implies #[trigger] tables[i] is None by {
            assert(prepared.tables@[i] is Ok);
        }
        if 0 <= k < memories.len() && (forall|i: int|
            0 <= i < k ==> #[trigger] prepared.memories@[i] is Ok) && prepared.memories@[k] is Err {
            error::lemma_no_refusal(memories.take(k));
            assert forall|i: int| 0 <= i < k implies #[trigger] memories.take(k)[i] is None by {
                assert(prepared.memories@[i] is Ok);
            }
            error::lemma_first_refusal_is_final(memories, k);
        }
    }
}

} // verus!
