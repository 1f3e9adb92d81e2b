//! Instantiation of a module: its allocation, and then what the execution engine is asked to do.

use std::collections::VecDeque;
use std::rc::Rc;

use vstd::pervasive::unreached;
use vstd::prelude::*;

use crate::allocate;
use crate::allocate::Prepared;
use crate::error::{Error, ErrorView};
use crate::func::{FuncInstance, FuncView, ModuleId};
use crate::heap::{Heap, HeapView};
use crate::init;
use crate::init::eval_init_expr;
use crate::instance::{ExternVal, ExternView, MemoryInstance, ModuleInstance, ModuleView, TableInstance};
use crate::laws;
use crate::link;
use crate::module::{DataSegment, ElementSegment, InitExpr, Module};
use crate::store::Store;
use crate::valid;
use crate::valid::{DEFAULT_MEMORY_INDEX, DEFAULT_TABLE_INDEX};
use crate::value::RuntimeValue;

verus! {

/// What the execution engine is asked to do.
pub enum Action {
    /// Put a function into a table.
    SetTable { table: Rc<TableInstance>, offset: u32, func: Rc<FuncInstance> },
    /// Put bytes into a memory.
    SetMemory { memory: Rc<MemoryInstance>, offset: u32, value: Vec<u8> },
    /// Call a function, and drop what it returns.
    Invoke { func: Rc<FuncInstance>, args: Vec<RuntimeValue> },
}

/// Model of an [`Action`].
#[verifier::ext_equal]
pub enum ActionView {
    SetTable { table: TableInstance, offset: u32, func: FuncView },
    SetMemory { memory: MemoryInstance, offset: u32, value: Seq<u8> },
    Invoke { func: FuncView, args: Seq<RuntimeValue> },
}

impl View for Action {
    type V = ActionView;

    open spec fn view(&self) -> ActionView {
        match *self {
            Action::SetTable { table, offset, func } => ActionView::SetTable {
                table: *table,
                offset,
                func: func@,
            },
            Action::SetMemory { memory, offset, value } => ActionView::SetMemory {
                memory: *memory,
                offset,
                value: value@,
            },
            Action::Invoke { func, args } => ActionView::Invoke { func: func@, args: args@ },
        }
    }
}

/// Models of a sequence of actions.
pub open spec fn action_views(actions: Seq<Action>) -> Seq<ActionView> {
    Seq::new(actions.len(), |i: int| actions[i]@)
}

/// The unsigned number with the same 32 bits.
pub open spec fn unsigned(v: i32) -> u32 {
    if v >= 0 {
        v as u32
    } else {
        (v + 0x1_0000_0000) as u32
    }
}

/// The unsigned number with the same 32 bits.
pub(crate) fn as_unsigned(v: i32) -> (u: u32)
    ensures
        u == unsigned(v),
{
    assert(v as u32 == (if v >= 0 {
        v as int
    } else {
        v + 0x1_0000_0000
    })) by (bit_vector);
    v as u32
}

/// Where a segment begins, if its offset is a number of 32 bits.
pub open spec fn offset_of(expr: InitExpr, values: Seq<RuntimeValue>) -> Option<u32> {
    match init::init_value(expr, values) {
        RuntimeValue::I32(v) => Some(unsigned(v)),
        _ => None,
    }
}

/// Whether an element segment has an offset, and its last place has a number.
pub open spec fn element_fits(segment: ElementSegment, values: Seq<RuntimeValue>) -> bool {
    offset_of(segment.offset, values) matches Some(offset) && offset + segment.members@.len()
        <= 0x1_0000_0000
}

/// Whether every segment has an offset, and no place that is to be filled lies beyond the numbers.
pub open spec fn segments_fit(module: Module, values: Seq<RuntimeValue>) -> bool {
    &&& forall|i: int|
        0 <= i < module.elements@.len() ==> element_fits(#[trigger] module.elements@[i], values)
    &&& forall|i: int|
        0 <= i < module.data@.len() ==> offset_of((#[trigger] module.data@[i]).offset, values) is Some
}

/// What one element segment asks for: its functions, in order, in successive places of the table.
pub open spec fn element_actions(
    segment: ElementSegment,
    instance: ModuleView,
    values: Seq<RuntimeValue>,
) -> Seq<ActionView> {
    Seq::new(
        segment.members@.len(),
        |j: int|
            ActionView::SetTable {
                table: instance.tables[DEFAULT_TABLE_INDEX as int],
                offset: (offset_of(segment.offset, values).unwrap() + j) as u32,
                func: instance.funcs[segment.members@[j] as int],
            },
    )
}

/// What the element segments ask for, one after the other.
pub open spec fn elements_actions(
    segments: Seq<ElementSegment>,
    instance: ModuleView,
    values: Seq<RuntimeValue>,
) -> Seq<ActionView>
    decreases segments.len(),
{
    if segments.len() == 0 {
        Seq::empty()
    } else {
        elements_actions(segments.drop_last(), instance, values) + element_actions(
            segments.last(),
            instance,
            values,
        )
    }
}

/// What the data segments ask for, one after the other.
pub open spec fn data_actions(
    segments: Seq<DataSegment>,
    instance: ModuleView,
    values: Seq<RuntimeValue>,
) -> Seq<ActionView> {
    Seq::new(
        segments.len(),
        |i: int|
            ActionView::SetMemory {
                memory: instance.memories[DEFAULT_MEMORY_INDEX as int],
                offset: offset_of(segments[i].offset, values).unwrap(),
                value: segments[i].value@,
            },
    )
}

/// What a start function asks for: to be called without arguments.
pub open spec fn start_actions(start: Option<u32>, instance: ModuleView) -> Seq<ActionView> {
    match start {
        Some(idx) => seq![
            ActionView::Invoke { func: instance.funcs[idx as int], args: Seq::empty() },
        ],
        None => Seq::empty(),
    }
}

/// Everything that is to be done once a module is allocated: the table is filled, then the
/// memory, and last the start function is called.
pub open spec fn plan(module: Module, instance: ModuleView, values: Seq<RuntimeValue>) -> Seq<
    ActionView,
> {
    elements_actions(module.elements@, instance, values) + data_actions(
        module.data@,
        instance,
        values,
    ) + start_actions(module.start, instance)
}

/// The values that the globals of an instance begin with: imported ones have the values that they
/// have on the heap.
pub open spec fn initial_values(heap: HeapView, module: Module, vals: Seq<ExternView>) -> Seq<
    RuntimeValue,
> {
    let imported = heap.values(link::globals_of(vals));
    imported + allocate::defined_values(module.globals@, imported)
}

/// A module on its way: it is allocated, and some of what it asked for is still to be done.
pub struct Instantiation {
    instance: ModuleId,
    actions: VecDeque<Action>,
    failure: Option<Error>,
}

/// Model of an [`Instantiation`].
#[verifier::ext_equal]
pub struct InstantiationView {
    pub instance: ModuleId,
    pub remaining: Seq<ActionView>,
    pub failure: Option<ErrorView>,
}

impl View for Instantiation {
    type V = InstantiationView;

    closed spec fn view(&self) -> InstantiationView {
        InstantiationView {
            instance: self.instance,
            remaining: action_views(self.actions@),
            failure: match self.failure {
                Some(e) => Some(e@),
                None => None,
            },
        }
    }
}

impl InstantiationView {
    /// The beginning: nothing is done yet.
    pub open spec fn begun(instance: ModuleId, actions: Seq<ActionView>) -> InstantiationView {
        InstantiationView { instance, remaining: actions, failure: None }
    }

    /// What follows once the next action is done. That a function could not be put into a table
    /// is passed over; any other failure ends the instantiation.
    pub open spec fn completed(self, outcome: Result<(), ErrorView>) -> InstantiationView {
        match (self.remaining[0], outcome) {
            (ActionView::SetTable { .. }, _) | (_, Ok(_)) => InstantiationView {
                remaining: self.remaining.drop_first(),
                ..self
            },
            (_, Err(e)) => InstantiationView {
                remaining: Seq::empty(),
                failure: Some(e),
                ..self
            },
        }
    }

    /// What follows once actions are done one after the other with these outcomes, as long as
    /// there is something to be done.
    pub open spec fn run(self, outcomes: Seq<Result<(), ErrorView>>) -> InstantiationView
        decreases outcomes.len(),
    {
        if outcomes.len() == 0 || self.remaining.len() == 0 {
            self
        } else {
            self.completed(outcomes[0]).run(outcomes.drop_first())
        }
    }

    /// What came of the instantiation.
    pub open spec fn result(self) -> Result<ModuleId, ErrorView> {
        match self.failure {
            Some(e) => Err(e),
            None => Ok(self.instance),
        }
    }
}

/// The model of an outcome.
pub open spec fn outcome_view<T>(outcome: Result<T, Error>) -> Result<T, ErrorView> {
    match outcome {
        Ok(v) => Ok(v),
        Err(e) => Err(e@),
    }
}

impl Instantiation {
    /// What is to be done next.
    pub fn pending(&self) -> (action: Option<&Action>)
        ensures
            match action {
                Some(a) => self@.remaining.len() > 0 && a@ == self@.remaining[0],
                None => self@.remaining.len() == 0,
            },
    {
        if self.actions.len() > 0 {
            Some(&self.actions[0])
        } else {
            None
        }
    }

    /// Takes note of what came of the next action.
    pub fn complete(&mut self, outcome: Result<(), Error>)
        requires
            old(self)@.remaining.len() > 0,
        ensures
            final(self)@ == old(self)@.completed(outcome_view(outcome)),
    {
        match (self.actions.pop_front(), outcome) {
            (Some(Action::SetTable { .. }), _) | (_, Ok(())) => {
                assert(self@ =~= old(self)@.completed(outcome_view(outcome)));
            },
            (_, Err(e)) => {
                self.actions.clear();
                self.failure = Some(e);
                assert(self@ =~= old(self)@.completed(outcome_view(outcome)));
            },
        }
    }

    /// The instance, once everything is done, or the failure that ended the instantiation.
    pub fn result(self) -> (result: Result<ModuleId, Error>)
        requires
            self@.remaining.len() == 0,
        ensures
            outcome_view(result) == self@.result(),
    {
        match self.failure {
            Some(e) => Err(e),
            None => Ok(self.instance),
        }
    }
}

/// Where a segment begins.
fn eval_offset(expr: &InitExpr, instance: &ModuleInstance, heap: &Heap) -> (offset: u32)
    requires
        init::is_const_expr(*expr, instance@.globals.len()),
        forall|i: int|
            0 <= i < instance@.globals.len() ==> heap@.has_global(#[trigger] instance@.globals[i]),
        offset_of(*expr, heap@.values(instance@.globals)) is Some,
    ensures
        offset_of(*expr, heap@.values(instance@.globals)) == Some(offset),
{
    match eval_init_expr(expr, instance, heap) {
        RuntimeValue::I32(v) => as_unsigned(v),
        _ => unreached(),
    }
}

/// Adds what one element segment asks for.
fn plan_element(
    segment: &ElementSegment,
    instance: &ModuleInstance,
    heap: &Heap,
    actions: &mut VecDeque<Action>,
)
    requires
        valid::element_exists(*segment, allocate::space_sizes(instance@)),
        forall|i: int|
            0 <= i < instance@.globals.len() ==> heap@.has_global(#[trigger] instance@.globals[i]),
        element_fits(*segment, heap@.values(instance@.globals)),
    ensures
        action_views(final(actions)@) == action_views(old(actions)@) + element_actions(
            *segment,
            instance@,
            heap@.values(instance@.globals),
        ),
{
    let offset: u32 = eval_offset(&segment.offset, instance, heap);
    let table = match instance.table_by_index(DEFAULT_TABLE_INDEX) {
        Some(table) => table,
        None => unreached(),
    };
    let ghost asked = element_actions(*segment, instance@, heap@.values(instance@.globals));
    let mut j: usize = 0;
    assert(action_views(actions@) =~= action_views(old(actions)@) + asked.take(0));
    while j < segment.members.len()
        invariant
            valid::element_exists(*segment, allocate::space_sizes(instance@)),
            offset_of(segment.offset, heap@.values(instance@.globals)) == Some(offset),
            offset + segment.members@.len() <= 0x1_0000_0000,
            *table == instance@.tables[DEFAULT_TABLE_INDEX as int],
            asked == element_actions(*segment, instance@, heap@.values(instance@.globals)),
            j <= segment.members@.len(),
            action_views(actions@) == action_views(old(actions)@) + asked.take(j as int),
        decreases segment.members@.len() - j,
    {
        let idx: u32 = segment.members[j];
        assert(segment.members@[j as int] < instance@.funcs.len());
        let func = match instance.func_by_index(idx) {
            Some(func) => func,
            None => unreached(),
        };
        let ghost before = actions@;
        let action = Action::SetTable { table: Rc::clone(&table), offset: offset + j as u32, func };
        assert(action@ == asked[j as int]);
        actions.push_back(action);
        assert(action_views(actions@) =~= action_views(before).push(action@));
        assert(action_views(old(actions)@) + asked.take(j + 1) =~= (action_views(old(actions)@)
            + asked.take(j as int)).push(asked[j as int]));
        j += 1;
    }
    assert(asked.take(j as int) =~= asked);
}

impl Heap {
    /// Lists everything that is to be done once a module is allocated.
    fn plan_actions(&self, module: &Module, instance: &ModuleInstance) -> (actions: VecDeque<Action>)
        requires
            forall|i: int|
                0 <= i < module.elements@.len() ==> valid::element_exists(
                    #[trigger] module.elements@[i],
                    allocate::space_sizes(instance@),
                ),
            forall|i: int|
                0 <= i < module.data@.len() ==> valid::data_exists(
                    #[trigger] module.data@[i],
                    allocate::space_sizes(instance@),
                ),
            module.start matches Some(idx) ==> idx < instance@.funcs.len(),
            forall|i: int|
                0 <= i < instance@.globals.len() ==> self@.has_global(
                    #[trigger] instance@.globals[i],
                ),
            segments_fit(*module, self@.values(instance@.globals)),
        ensures
            action_views(actions@) == plan(*module, instance@, self@.values(instance@.globals)),
    {
        let ghost values = self@.values(instance@.globals);
        let mut actions: VecDeque<Action> = VecDeque::new();
        let mut i: usize = 0;
        assert(action_views(actions@) =~= Seq::empty());
        while i < module.elements.len()
            invariant
                forall|j: int|
                    0 <= j < module.elements@.len() ==> valid::element_exists(
                        #[trigger] module.elements@[j],
                        allocate::space_sizes(instance@),
                    ),
                forall|j: int|
                    0 <= j < instance@.globals.len() ==> self@.has_global(
                        #[trigger] instance@.globals[j],
                    ),
                values == self@.values(instance@.globals),
                segments_fit(*module, values),
                i <= module.elements@.len(),
                action_views(actions@) == elements_actions(
                    module.elements@.take(i as int),
                    instance@,
                    values,
                ),
            decreases module.elements@.len() - i,
        {
            assert(element_fits(module.elements@[i as int], values));
            plan_element(&module.elements[i], instance, self, &mut actions);
            assert(module.elements@.take(i + 1).drop_last() =~= module.elements@.take(i as int));
            i += 1;
        }
        assert(module.elements@.take(i as int) =~= module.elements@);
        let ghost filled = action_views(actions@);
        let ghost written = data_actions(module.data@, instance@, values);
        assert(filled + written.take(0) =~= filled);
        let mut k: usize = 0;
        while k < module.data.len()
            invariant
                forall|j: int|
                    0 <= j < module.data@.len() ==> valid::data_exists(
                        #[trigger] module.data@[j],
                        allocate::space_sizes(instance@),
                    ),
                forall|j: int|
                    0 <= j < instance@.globals.len() ==> self@.has_global(
                        #[trigger] instance@.globals[j],
                    ),
                values == self@.values(instance@.globals),
                segments_fit(*module, values),
                written == data_actions(module.data@, instance@, values),
                k <= module.data@.len(),
                action_views(actions@) == filled + written.take(k as int),
            decreases module.data@.len() - k,
        {
            let segment = &module.data[k];
            assert(valid::data_exists(module.data@[k as int], allocate::space_sizes(instance@)));
            assert(offset_of(module.data@[k as int].offset, values) is Some);
            let offset: u32 = eval_offset(&segment.offset, instance, self);
            let memory = match instance.memory_by_index(DEFAULT_MEMORY_INDEX) {
                Some(memory) => memory,
                None => unreached(),
            };
            let value = segment.value.clone();
            assert(value@ =~= segment.value@);
            let ghost before = actions@;
            let action = Action::SetMemory { memory, offset, value };
            assert(action@ == written[k as int]);
            actions.push_back(action);
            assert(action_views(actions@) =~= action_views(before).push(action@));
            assert(filled + written.take(k + 1) =~= (filled + written.take(k as int)).push(
                written[k as int],
            ));
            k += 1;
        }
        assert(written.take(k as int) =~= written);
        if let Some(start_fn_idx) = module.start {
            let func = match instance.func_by_index(start_fn_idx) {
                Some(func) => func,
                None => unreached(),
            };
            let ghost before = actions@;
            let action = Action::Invoke { func, args: Vec::new() };
            actions.push_back(action);
            assert(action_views(actions@) =~= action_views(before).push(action@));
            assert(action_views(actions@) =~= filled + written + start_actions(
                module.start,
                instance@,
            ));
        } else {
            assert(action_views(actions@) =~= filled + written + start_actions(
                module.start,
                instance@,
            ));
        }
        actions
    }
}

impl Store {
    /// Instantiates a module with the values that it imports: allocates it on `heap` and gives out
    /// what is to be done before the instance is ready. Where the module is refused, the heap does
    /// not change.
    pub fn instantiate_module(
        &mut self,
        heap: &mut Heap,
        module: &Module,
        extern_vals: &[ExternVal],
        prepared: Prepared,
    ) -> (result: Result<Instantiation, Error>)
        requires
            is_ready(old(heap)@, *module, link::extern_views(extern_vals@), prepared),
        ensures
            match result {
                Ok(instantiation) => {
                    let vals = link::extern_views(extern_vals@);
                    &&& allocate::alloc_refusal(*module, vals, prepared) is None
                    &&& final(heap)@ == allocate::allocated(old(heap)@, *module, vals, prepared)
                    &&& instantiation@.instance.0 == old(heap)@.modules.len()
                    &&& instantiation@ == InstantiationView::begun(
                        ModuleId(old(heap)@.modules.len() as usize),
                        plan(
                            *module,
                            allocate::instance_of(old(heap)@, *module, vals, prepared),
                            initial_values(old(heap)@, *module, vals),
                        ),
                    )
                },
                Err(e) => {
                    &&& allocate::alloc_refusal(
                        *module,
                        link::extern_views(extern_vals@),
                        prepared,
                    ) == Some(e@)
                    &&& final(heap)@ == old(heap)@
                },
            },
            old(heap)@.grows_to(final(heap)@),
            old(heap)@.wf() ==> final(heap)@.wf(),
    {
        let ghost vals = link::extern_views(extern_vals@);
        let mut instance = ModuleInstance::new();
        self.alloc_module_internal(heap, module, extern_vals, &mut instance, prepared)?;
        let id = heap.push_module(instance);
        proof {
            valid::lemma_linked_counts(module.type_views(), module.imports@, vals);
            heap.lemma_sizes();
            lemma_allocated_values(old(heap)@, *module, vals, prepared);
            if old(heap)@.wf() {
                laws::law_allocation_keeps_the_heap_sound(old(heap)@, *module, vals, prepared);
            }
        }
        let actions = heap.plan_actions(module, heap.module(id));
        let instantiation = Instantiation { instance: id, actions, failure: None };
        assert(instantiation@.remaining == action_views(actions@));
        Ok(instantiation)
    }
}

/// Whether a module can be instantiated with `vals` or refused: the answers about it are complete,
/// `vals` are in range for the heap, and the segments fit, unless the module is refused anyway.
pub open spec fn is_ready(
    heap: HeapView,
    module: Module,
    vals: Seq<ExternView>,
    prepared: Prepared,
) -> bool {
    &&& prepared.is_for(module, vals)
    &&& heap.has_externs(vals)
    &&& allocate::alloc_refusal(module, vals, prepared) is None ==> segments_fit(
        module,
        initial_values(heap, module, vals),
    )
}

/// The globals of a new instance are on the heap, with the values that they begin with.
pub proof fn lemma_allocated_values(
    heap: HeapView,
    module: Module,
    vals: Seq<ExternView>,
    prepared: Prepared,
)
    requires
        heap.has_externs(vals),
        heap.globals.len() + module.globals@.len() <= usize::MAX,
    ensures
        forall|i: int|
            0 <= i < allocate::instance_of(heap, module, vals, prepared).globals.len()
                ==> allocate::allocated(heap, module, vals, prepared).has_global(
                #[trigger] allocate::instance_of(heap, module, vals, prepared).globals[i],
            ),
        allocate::allocated(heap, module, vals, prepared).values(
            allocate::instance_of(heap, module, vals, prepared).globals,
        ) == initial_values(heap, module, vals),
{
    allocate::lemma_globals_of_belong(heap, vals);
    let imported = link::globals_of(vals);
    let globals = allocate::instance_of(heap, module, vals, prepared).globals;
    let after = allocate::allocated(heap, module, vals, prepared);
    allocate::lemma_defined_values_len(module.globals@, heap.values(imported));
    assert forall|i: int| 0 <= i < globals.len() implies after.has_global(
        #[trigger] globals[i],
    ) by {
        if i < imported.len() {
            assert(heap.has_global(imported[i]));
        }
    }
    assert forall|i: int| 0 <= i < globals.len() implies after.values(globals)[i] == initial_values(
        heap,
        module,
        vals,
    )[i] by {
        if i < imported.len() {
            assert(heap.has_global(imported[i]));
        }
    }
    assert(after.values(globals) =~= initial_values(heap, module, vals));
}

} // verus!
