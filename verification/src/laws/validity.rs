//! Laws of the checks that are made before a module is instantiated.

use vstd::prelude::*;

use crate::allocate;
use crate::allocate::Prepared;
use crate::error;
use crate::error::Error;
use crate::func::FuncInstance;
use crate::heap::{Heap, HeapView};
use crate::instance::{ExternVal, ExternView};
use crate::instantiate;
use crate::laws;
use crate::link;
use crate::module::{ImportEntry, InitExpr, Internal, Module, ModuleAuxData, Opcode};
use crate::ready::check_imports;
use crate::valid;
use crate::valid::check_valid;
use crate::value::RuntimeValue;

verus! {

/// The imports of each kind are counted.
pub proof fn law_import_counts(imports: Seq<ImportEntry>)
    ensures
        valid::import_counts(imports).funcs == imports.filter(
            |e: ImportEntry| e.entry is Function,
        ).len(),
        valid::import_counts(imports).tables == imports.filter(
            |e: ImportEntry| e.entry is Table,
        ).len(),
        valid::import_counts(imports).memories == imports.filter(
            |e: ImportEntry| e.entry is Memory,
        ).len(),
        valid::import_counts(imports).globals == imports.filter(
            |e: ImportEntry| e.entry is Global,
        ).len(),
    decreases imports.len(),
{
    reveal(Seq::filter);
    if imports.len() > 0 {
        law_import_counts(imports.drop_last());
    }
}

/// A module is valid where everything that it refers to exists, among what it imports and what it
/// defines: the types of its functions, a body and labels for each function, the globals that its
/// constant expressions read, what it exports, the first table and the functions of its element
/// segments, the first memory for its data segments, and its start function; and only there.
pub proof fn law_check_valid(module: Module, aux: ModuleAuxData, ok: bool)
    requires
        call_ensures(check_valid, (&module, &aux), ok),
    ensures
        ({
            let imported_globals = module.imports@.filter(
                |e: ImportEntry| e.entry is Global,
            ).len();
            let funcs = module.imports@.filter(|e: ImportEntry| e.entry is Function).len()
                + module.functions@.len();
            let tables = module.imports@.filter(|e: ImportEntry| e.entry is Table).len()
                + module.tables@.len();
            let memories = module.imports@.filter(|e: ImportEntry| e.entry is Memory).len()
                + module.memories@.len();
            let globals = imported_globals + module.globals@.len();
            ok <==> {
                &&& forall|i: int|
                    #![trigger module.imports@[i]]
                    0 <= i < module.imports@.len() && module.imports@[i].entry is Function
                        ==> module.imports@[i].entry->Function_0 < module.types@.len()
                &&& module.functions@.len() == module.bodies@.len()
                &&& forall|i: int|
                    0 <= i < module.functions@.len() ==> #[trigger] module.functions@[i]
                        < module.types@.len()
                &&& forall|i: usize|
                    i < module.functions@.len() ==> #[trigger] aux.labels@.contains_key(i)
                &&& forall|i: int|
                    #![trigger module.globals@[i]]
                    0 <= i < module.globals@.len() ==> {
                        let code = module.globals@[i].init_expr.code@;
                        code.len() == 2 && (code[0] is I32Const || code[0] is I64Const
                            || code[0] is F32Const || code[0] is F64Const || (code[0] is GetGlobal
                            && code[0]->GetGlobal_0 < imported_globals + i))
                    }
                &&& forall|i: int|
                    #![trigger module.exports@[i]]
                    0 <= i < module.exports@.len() ==> match module.exports@[i].internal {
                        Internal::Function(idx) => idx < funcs,
                        Internal::Table(idx) => idx < tables,
                        Internal::Memory(idx) => idx < memories,
                        Internal::Global(idx) => idx < globals,
                    }
                &&& forall|i: int|
                    #![trigger module.elements@[i]]
                    0 <= i < module.elements@.len() ==> {
                        let code = module.elements@[i].offset.code@;
                        &&& tables > 0
                        &&& code.len() == 2 && (code[0] is I32Const || code[0] is I64Const
                            || code[0] is F32Const || code[0] is F64Const || (code[0] is GetGlobal
                            && code[0]->GetGlobal_0 < globals))
                        &&& forall|j: int|
                            0 <= j < module.elements@[i].members@.len()
                                ==> #[trigger] module.elements@[i].members@[j] < funcs
                    }
                &&& forall|i: int|
                    #![trigger module.data@[i]]
                    0 <= i < module.data@.len() ==> {
                        let code = module.data@[i].offset.code@;
                        &&& memories > 0
                        &&& code.len() == 2 && (code[0] is I32Const || code[0] is I64Const
                            || code[0] is F32Const || code[0] is F64Const || (code[0] is GetGlobal
                            && code[0]->GetGlobal_0 < globals))
                    }
                &&& module.start is Some ==> module.start->0 < funcs
            }
        }),
{
    law_import_counts(module.imports@);
    let all = valid::counts(module);
    assert forall|i: int| #![trigger module.elements@[i]] 0 <= i < module.elements@.len() implies (
    valid::element_exists(module.elements@[i], all) <==> {
        let code = module.elements@[i].offset.code@;
        &&& all.tables > 0
        &&& code.len() == 2 && (code[0] is I32Const || code[0] is I64Const || code[0] is F32Const
            || code[0] is F64Const || (code[0] is GetGlobal && code[0]->GetGlobal_0 < all.globals))
        &&& forall|j: int|
            0 <= j < module.elements@[i].members@.len() ==> #[trigger] module.elements@[i].members@[j]
                < all.funcs
    }) by {
    }
}

/// The values that the globals of an instance would begin with: those of the imported globals as
/// they are on the heap and, for a global that the module defines, the constant of its initializer
/// or the value before it that its initializer reads.
pub proof fn law_initial_values(heap: HeapView, module: Module, vals: Seq<ExternView>, i: int)
    ensures
        ({
            let values = instantiate::initial_values(heap, module, vals);
            let imported = link::globals_of(vals);
            let place = imported.len() + i;
            &&& values.len() == imported.len() + module.globals@.len()
            &&& 0 <= i < imported.len() ==> values[i] == heap.globals[imported[i].0 as int].val
            &&& 0 <= i < module.globals@.len() ==> match module.globals@[i].init_expr.code@[0] {
                Opcode::I32Const(v) => values[place] == RuntimeValue::I32(v),
                Opcode::I64Const(v) => values[place] == RuntimeValue::I64(v),
                Opcode::F32Const(v) => values[place] == RuntimeValue::F32(v),
                Opcode::F64Const(v) => values[place] == RuntimeValue::F64(v),
                Opcode::GetGlobal(idx) => idx < place ==> values[place] == values[idx as int],
                _ => true,
            }
        }),
{
    let imported = heap.values(link::globals_of(vals));
    allocate::lemma_defined_values_len(module.globals@, imported);
    if 0 <= i < module.globals@.len() {
        laws::law_globals_begin_with_their_initializers(heap, module, vals, i);
        let values = instantiate::initial_values(heap, module, vals);
        let place = link::globals_of(vals).len() + i;
        if let Opcode::GetGlobal(idx) = module.globals@[i].init_expr.code@[0] {
            if idx < place {
                assert(values.take(place)[idx as int] == values[idx as int]);
            }
        }
    }
}

/// A segment has an offset where its expression gives a number of 32 bits, which is then taken as
/// an unsigned number; and only there.
pub proof fn law_offsets(expr: InitExpr, values: Seq<RuntimeValue>)
    requires
        expr.code@[0] matches Opcode::GetGlobal(idx) ==> idx < values.len(),
    ensures
        expr.code@[0] matches Opcode::I32Const(v) ==> (instantiate::offset_of(
            expr,
            values,
        ) matches Some(offset) && offset == v as int % 0x1_0000_0000),
        expr.code@[0] matches Opcode::GetGlobal(idx) ==> match values[idx as int] {
            RuntimeValue::I32(v) => instantiate::offset_of(expr, values) matches Some(offset)
                && offset == v as int % 0x1_0000_0000,
            _ => instantiate::offset_of(expr, values) is None,
        },
        expr.code@[0] is I64Const || expr.code@[0] is F32Const || expr.code@[0] is F64Const
            ==> instantiate::offset_of(expr, values) is None,
{
}

/// Segments fit where each has an offset and the last place of each element segment has a number of
/// 32 bits, and only there.
pub proof fn law_segments_fit(module: Module, values: Seq<RuntimeValue>)
    ensures
        instantiate::segments_fit(module, values) <==> {
            &&& forall|i: int|
                #![trigger module.elements@[i]]
                0 <= i < module.elements@.len() ==> instantiate::offset_of(
                    module.elements@[i].offset,
                    values,
                ) is Some && instantiate::offset_of(module.elements@[i].offset, values)->0
                    + module.elements@[i].members@.len() <= 0x1_0000_0000
            &&& forall|i: int|
                #![trigger module.data@[i]]
                0 <= i < module.data@.len() ==> instantiate::offset_of(
                    module.data@[i].offset,
                    values,
                ) is Some
        },
{
    if instantiate::segments_fit(module, values) {
        assert forall|i: int|
            #![trigger module.elements@[i]]
            0 <= i < module.elements@.len() implies instantiate::offset_of(
            module.elements@[i].offset,
            values,
        ) is Some && instantiate::offset_of(module.elements@[i].offset, values)->0
            + module.elements@[i].members@.len() <= 0x1_0000_0000 by {
            assert(instantiate::element_fits(module.elements@[i], values));
        }
    }
}

/// A module can be instantiated or refused where the handles among the values are in range and it
/// fails validation, or else is valid and is refused for its imports, its tables or its memories,
/// or else has an answer about each of its tables and memories and segments that fit; and only
/// there.
pub proof fn law_can_instantiate(
    heap: Heap,
    module: Module,
    vals: &[ExternVal],
    prepared: Prepared,
    ok: bool,
    is_valid: bool,
    checked: Result<(), Error>,
)
    requires
        call_ensures(Heap::can_instantiate, (&heap, &module, vals, &prepared), ok),
        prepared.validation matches Ok(aux) ==> call_ensures(
            check_valid,
            (&module, &aux),
            is_valid,
        ),
        prepared.validation is Ok && is_valid ==> call_ensures(
            check_imports,
            (&module, vals),
            checked,
        ),
    ensures
        ok <==> {
            &&& forall|i: int|
                #![trigger vals@[i]]
                0 <= i < vals@.len() ==> match vals@[i] {
                    ExternVal::Func(func) => match *func {
                        FuncInstance::Internal { module: home, .. } => home.0
                            < heap@.modules.len(),
                        FuncInstance::Host { .. } => true,
                    },
                    ExternVal::Global(id) => id.0 < heap@.globals.len(),
                    _ => true,
                }
            &&& prepared.validation is Err || (is_valid && (checked is Err || (exists|i: int|
                0 <= i < prepared.tables@.len() && #[trigger] prepared.tables@[i] is Err) || (
            exists|i: int|
                0 <= i < prepared.memories@.len() && #[trigger] prepared.memories@[i] is Err) || (
            prepared.tables@.len() == module.tables@.len() && prepared.memories@.len()
                == module.memories@.len() && instantiate::segments_fit(
                module,
                instantiate::initial_values(heap@, module, link::extern_views(vals@)),
            ))))
        },
{
    let views = link::extern_views(vals@);
    let tables = allocate::failures(prepared.tables@);
    let memories = allocate::failures(prepared.memories@);
    error::lemma_no_refusal(tables);
    error::lemma_no_refusal(memories);
    assert forall|i: int| #![trigger vals@[i]] 0 <= i < vals@.len() implies (heap@.has_extern(
        views[i],
    ) <==> match vals@[i] {
        ExternVal::Func(func) => match *func {
            FuncInstance::Internal { module: home, .. } => home.0 < heap@.modules.len(),
            FuncInstance::Host { .. } => true,
        },
        ExternVal::Global(id) => id.0 < heap@.globals.len(),
        _ => true,
    }) by {
        assert(views[i] == vals@[i]@);
    }
    if heap@.has_externs(views) {
        assert forall|i: int| #![trigger vals@[i]] 0 <= i < vals@.len() implies heap@.has_extern(
            views[i],
        ) by {
        }
    }
    if forall|i: int| #![trigger vals@[i]] 0 <= i < vals@.len() ==> heap@.has_extern(views[i]) {
        assert forall|i: int| 0 <= i < views.len() implies heap@.has_extern(#[trigger] views[i]) by {
            assert(vals@[i] == vals@[i]);
        }
    }
    assert forall|i: int| 0 <= i < tables.len() implies (#[trigger] prepared.tables@[i] is Err
        <==> tables[i] is Some) by {
    }
    assert forall|i: int| 0 <= i < memories.len() implies (#[trigger] prepared.memories@[i] is Err
        <==> memories[i] is Some) by {
    }
    if error::first_refusal(tables) is Some {
        let i = choose|i: int| 0 <= i < tables.len() && !(#[trigger] tables[i] is None);
        assert(prepared.tables@[i] is Err);
    }
    if error::first_refusal(memories) is Some {
        let i = choose|i: int| 0 <= i < memories.len() && !(#[trigger] memories[i] is None);
        assert(prepared.memories@[i] is Err);
    }
}

/// Whatever a heap grows to keeps its instances as they are, its globals in place and mutable or
/// not as they were, and the values of those that are not mutable.
pub proof fn law_growth(heap: HeapView, later: HeapView)
    ensures
        heap.grows_to(later) <==> {
            &&& heap.modules.len() <= later.modules.len()
            &&& heap.globals.len() <= later.globals.len()
            &&& forall|i: int|
                0 <= i < heap.modules.len() ==> heap.modules[i] == #[trigger] later.modules[i]
            &&& forall|i: int|
                #![trigger later.globals[i]]
                0 <= i < heap.globals.len() ==> heap.globals[i].mutable == later.globals[i].mutable
                    && (heap.globals[i].mutable || heap.globals[i] == later.globals[i])
        },
{
}

} // verus!
