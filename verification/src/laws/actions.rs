//! Laws of what is to be done once a module is allocated.

use vstd::prelude::*;

use crate::allocate::Prepared;
use crate::error::Error;
use crate::func::ModuleId;
use crate::heap::Heap;
use crate::init::eval_init_expr;
use crate::instance::{ExternVal, ModuleInstance};
use crate::instantiate;
use crate::instantiate::{Action, ActionView, Instantiation};
use crate::laws;
use crate::laws::allocation;
use crate::link;
use crate::module::{ElementSegment, Module};
use crate::store::Store;
use crate::valid;
use crate::value::RuntimeValue;

verus! {

/// There is one action for each member of each segment.
proof fn lemma_members_counted(
    segments: Seq<ElementSegment>,
    instance: crate::instance::ModuleView,
    values: Seq<RuntimeValue>,
)
    ensures
        instantiate::elements_actions(segments, instance, values).len() == segments.map_values(
            |s: ElementSegment| s.members@,
        ).flatten().len(),
    decreases segments.len(),
{
    let members = segments.map_values(|s: ElementSegment| s.members@);
    members.lemma_flatten_and_flatten_alt_are_equivalent();
    if segments.len() > 0 {
        lemma_members_counted(segments.drop_last(), instance, values);
        let before = segments.drop_last().map_values(|s: ElementSegment| s.members@);
        before.lemma_flatten_and_flatten_alt_are_equivalent();
        assert(members.drop_last() =~= before);
        assert(members.last() == segments.last().members@);
    }
}

/// The functions of an element segment go to successive places of the first table, from the offset
/// of the segment on, in the order of the segments and of their members. The offset is what the
/// expression of the segment gives in the new instance, taken as an unsigned number.
pub proof fn law_element_segments(
    store: &mut Store,
    heap: &mut Heap,
    module: Module,
    vals: &[ExternVal],
    prepared: Prepared,
    result: Result<Instantiation, Error>,
    instance: &ModuleInstance,
    offset: RuntimeValue,
    i: int,
    j: int,
)
    requires
        instantiate::is_ready(old(heap)@, module, link::extern_views(vals@), prepared),
        call_ensures(Store::instantiate_module, (store, heap, &module, vals, prepared), result),
        result is Ok,
        call_ensures(
            Heap::module,
            (&*final(heap), ModuleId(old(heap)@.modules.len() as usize)),
            instance,
        ),
        0 <= i < module.elements@.len(),
        call_ensures(
            eval_init_expr,
            (&module.elements@[i].offset, instance, &*final(heap)),
            offset,
        ),
        0 <= j < module.elements@[i].members@.len(),
    ensures
        ({
            let before = module.elements@.take(i).map_values(
                |s: ElementSegment| s.members@,
            ).flatten().len();
            let idx = module.elements@[i].members@[j];
            &&& before + j < result->Ok_0@.remaining.len()
            &&& result->Ok_0@.remaining[before + j] matches ActionView::SetTable {
                table,
                offset: place,
                func,
            }
            &&& offset matches RuntimeValue::I32(v)
            &&& place == v as int % 0x1_0000_0000 + j
            &&& 0 < instance@.tables.len()
            &&& table == instance@.tables[0]
            &&& idx < instance@.funcs.len()
            &&& func == instance@.funcs[idx as int]
        }),
{
    allocation::lemma_instantiated(store, heap, module, vals, prepared, result);
    let views = link::extern_views(vals@);
    let values = instantiate::initial_values(old(heap)@, module, views);
    lemma_members_counted(module.elements@.take(i), instance@, values);
    assert(instantiate::element_fits(module.elements@[i], values));
    assert(valid::element_exists(module.elements@[i], valid::counts(module)));
    laws::law_elements_fill_the_table(module.elements@, instance@, values, i, j);
}

/// Each data segment is written, whole and in order, to the first memory at the offset that the
/// expression of the segment gives in the new instance, taken as an unsigned number. This comes
/// after the tables are filled.
pub proof fn law_data_segments(
    store: &mut Store,
    heap: &mut Heap,
    module: Module,
    vals: &[ExternVal],
    prepared: Prepared,
    result: Result<Instantiation, Error>,
    instance: &ModuleInstance,
    offset: RuntimeValue,
    i: int,
)
    requires
        instantiate::is_ready(old(heap)@, module, link::extern_views(vals@), prepared),
        call_ensures(Store::instantiate_module, (store, heap, &module, vals, prepared), result),
        result is Ok,
        call_ensures(
            Heap::module,
            (&*final(heap), ModuleId(old(heap)@.modules.len() as usize)),
            instance,
        ),
        0 <= i < module.data@.len(),
        call_ensures(eval_init_expr, (&module.data@[i].offset, instance, &*final(heap)), offset),
    ensures
        ({
            let before = module.elements@.map_values(
                |s: ElementSegment| s.members@,
            ).flatten().len();
            &&& before + i < result->Ok_0@.remaining.len()
            &&& result->Ok_0@.remaining[before + i] matches ActionView::SetMemory {
                memory,
                offset: place,
                value,
            }
            &&& offset matches RuntimeValue::I32(v)
            &&& place == v as int % 0x1_0000_0000
            &&& 0 < instance@.memories.len()
            &&& memory == instance@.memories[0]
            &&& value == module.data@[i].value@
        }),
{
    allocation::lemma_instantiated(store, heap, module, vals, prepared, result);
    let views = link::extern_views(vals@);
    let values = instantiate::initial_values(old(heap)@, module, views);
    lemma_members_counted(module.elements@, instance@, values);
    assert(instantiate::offset_of(module.data@[i].offset, values) is Some);
    assert(valid::data_exists(module.data@[i], valid::counts(module)));
}

/// Nothing is to be done but to fill the table, to write the data and, last, to call the start
/// function without arguments, if the module has one.
pub proof fn law_all_actions(
    store: &mut Store,
    heap: &mut Heap,
    module: Module,
    vals: &[ExternVal],
    prepared: Prepared,
    result: Result<Instantiation, Error>,
)
    requires
        instantiate::is_ready(old(heap)@, module, link::extern_views(vals@), prepared),
        call_ensures(Store::instantiate_module, (store, heap, &module, vals, prepared), result),
        result is Ok,
    ensures
        ({
            let instance = final(heap)@.modules[old(heap)@.modules.len() as int];
            let actions = result->Ok_0@.remaining;
            let before = module.elements@.map_values(
                |s: ElementSegment| s.members@,
            ).flatten().len() + module.data@.len();
            &&& module.start is None ==> actions.len() == before
            &&& module.start matches Some(idx) ==> {
                &&& actions.len() == before + 1
                &&& idx < instance.funcs.len()
                &&& actions[before as int] matches ActionView::Invoke { func, args }
                &&& func == instance.funcs[idx as int]
                &&& args.len() == 0
            }
        }),
{
    allocation::lemma_instantiated(store, heap, module, vals, prepared, result);
    let views = link::extern_views(vals@);
    let values = instantiate::initial_values(old(heap)@, module, views);
    let instance = final(heap)@.modules[old(heap)@.modules.len() as int];
    lemma_members_counted(module.elements@, instance, values);
}

/// The next action is the first of those that remain, and there is none where none remains.
pub proof fn law_pending_action(instantiation: Instantiation, action: Option<&Action>)
    requires
        call_ensures(Instantiation::pending, (&instantiation,), action),
    ensures
        action is Some <==> instantiation@.remaining.len() > 0,
        action matches Some(a) ==> match *a {
            Action::SetTable { table, offset, func } => instantiation@.remaining[0]
                == (ActionView::SetTable { table: *table, offset, func: func@ }),
            Action::SetMemory { memory, offset, value } => instantiation@.remaining[0]
                == (ActionView::SetMemory { memory: *memory, offset, value: value@ }),
            Action::Invoke { func, args } => instantiation@.remaining[0] == (ActionView::Invoke {
                func: func@,
                args: args@,
            }),
        },
{
}

/// An action that is done, or that was to put a function into a table and failed, is passed over,
/// and the rest stays to be done. Any other failure ends the instantiation.
pub proof fn law_completed_action(instantiation: &mut Instantiation, outcome: Result<(), Error>)
    requires
        old(instantiation)@.remaining.len() > 0,
        call_ensures(Instantiation::complete, (instantiation, outcome), ()),
    ensures
        final(instantiation)@.instance == old(instantiation)@.instance,
        outcome is Ok || old(instantiation)@.remaining[0] is SetTable ==> {
            &&& final(instantiation)@.remaining == old(instantiation)@.remaining.skip(1)
            &&& final(instantiation)@.failure == old(instantiation)@.failure
        },
        outcome is Err && !(old(instantiation)@.remaining[0] is SetTable) ==> {
            &&& final(instantiation)@.remaining.len() == 0
            &&& final(instantiation)@.failure == Some(outcome->Err_0@)
        },
{
}

/// What comes of an instantiation is the failure that ended it, or else the instance.
pub proof fn law_instantiation_result(
    instantiation: Instantiation,
    result: Result<ModuleId, Error>,
)
    requires
        call_ensures(Instantiation::result, (instantiation,), result),
    ensures
        instantiation@.failure is None ==> result == Ok::<_, Error>(instantiation@.instance),
        instantiation@.failure is Some ==> (result matches Err(e) && instantiation@.failure == Some(
            e@,
        )),
{
}

} // verus!
