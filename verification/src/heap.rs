//! The heap: the module instances and the globals of a program, which change while they are shared.

use vstd::prelude::*;

use crate::error::Error;
use crate::func::{FuncView, ModuleId};
use crate::instance;
use crate::instance::{ExternView, GlobalId, GlobalInstance, GlobalView, ModuleInstance, ModuleView};
use crate::laws;
use crate::value::RuntimeValue;

verus! {

/// The module instances and the globals of a program. Both are reached by handles, which stay
/// valid for good: nothing is ever taken out. A handle is a position and does not tell which heap
/// gave it out, so a program keeps to one heap: handles of different heaps must not be mixed.
pub struct Heap {
    modules: Vec<ModuleInstance>,
    globals: Vec<GlobalInstance>,
}

/// Model of a [`Heap`].
#[verifier::ext_equal]
pub struct HeapView {
    pub modules: Seq<ModuleView>,
    pub globals: Seq<GlobalView>,
}

impl View for Heap {
    type V = HeapView;

    closed spec fn view(&self) -> HeapView {
        HeapView {
            modules: Seq::new(self.modules@.len(), |i: int| self.modules@[i]@),
            globals: Seq::new(self.globals@.len(), |i: int| self.globals@[i]@),
        }
    }
}

impl HeapView {
    /// A heap that holds nothing.
    pub open spec fn empty() -> HeapView {
        HeapView { modules: Seq::empty(), globals: Seq::empty() }
    }

    /// Whether a handle of a module instance is in range for this heap.
    pub open spec fn has_module(self, id: ModuleId) -> bool {
        id.0 < self.modules.len()
    }

    /// Whether a handle of a global is in range for this heap.
    pub open spec fn has_global(self, id: GlobalId) -> bool {
        id.0 < self.globals.len()
    }

    /// Whether the handle of the instance that a function runs in, if any, is in range for this
    /// heap.
    pub open spec fn has_func(self, func: FuncView) -> bool {
        func matches FuncView::Internal { module, .. } ==> self.has_module(module)
    }

    /// Whether the handles in a value that passes between modules are in range for this heap.
    pub open spec fn has_extern(self, val: ExternView) -> bool {
        match val {
            ExternView::Func(func) => self.has_func(func),
            ExternView::Global(global) => self.has_global(global),
            _ => true,
        }
    }

    /// Whether the handles in all of `vals` are in range for this heap.
    pub open spec fn has_externs(self, vals: Seq<ExternView>) -> bool {
        forall|i: int| 0 <= i < vals.len() ==> self.has_extern(#[trigger] vals[i])
    }

    /// Whether the handles in an instance are in range for this heap.
    pub open spec fn has_instance(self, instance: ModuleView) -> bool {
        &&& forall|i: int|
            0 <= i < instance.funcs.len() ==> self.has_func(#[trigger] instance.funcs[i])
        &&& forall|i: int|
            0 <= i < instance.globals.len() ==> self.has_global(#[trigger] instance.globals[i])
        &&& forall|name: Seq<char>| #[trigger]
            instance.exports.contains_key(name) ==> self.has_extern(instance.exports[name])
    }

    /// Whether every handle that can be reached from the heap is in range for it.
    pub open spec fn wf(self) -> bool {
        forall|i: int| 0 <= i < self.modules.len() ==> self.has_instance(#[trigger] self.modules[i])
    }

    /// Whether `later` can have come of this heap: instances stay as they are, globals stay in
    /// place, and an immutable global keeps its value.
    pub open spec fn grows_to(self, later: HeapView) -> bool {
        &&& self.modules.len() <= later.modules.len()
        &&& self.globals.len() <= later.globals.len()
        &&& forall|i: int|
            0 <= i < self.modules.len() ==> #[trigger] later.modules[i] == self.modules[i]
        &&& forall|i: int|
            0 <= i < self.globals.len() ==> (#[trigger] later.globals[i]).mutable
                == self.globals[i].mutable
        &&& forall|i: int|
            0 <= i < self.globals.len() && !self.globals[i].mutable ==> #[trigger] later.globals[i]
                == self.globals[i]
    }

    /// The current values of globals.
    pub open spec fn values(self, ids: Seq<GlobalId>) -> Seq<RuntimeValue> {
        Seq::new(ids.len(), |i: int| self.globals[ids[i].0 as int].val)
    }
}

impl Default for Heap {
    fn default() -> (heap: Heap)
        ensures
            heap@ == HeapView::empty(),
    {
        let heap = Heap { modules: Vec::new(), globals: Vec::new() };
        assert(heap@ =~= HeapView::empty());
        heap
    }
}

impl Heap {
    /// A heap that holds nothing.
    pub fn new() -> (heap: Heap)
        ensures
            heap@ == HeapView::empty(),
            heap@.wf(),
    {
        Heap::default()
    }

    /// Tells whether a handle of a module instance is in range for this heap.
    pub fn has_module(&self, id: ModuleId) -> (has: bool)
        ensures
            has == self@.has_module(id),
    {
        id.0 < self.modules.len()
    }

    /// Tells whether a handle of a global is in range for this heap.
    pub fn has_global(&self, id: GlobalId) -> (has: bool)
        ensures
            has == self@.has_global(id),
    {
        id.0 < self.globals.len()
    }

    /// The instance with this handle.
    pub fn module(&self, id: ModuleId) -> (module: &ModuleInstance)
        requires
            self@.has_module(id),
        ensures
            module@ == self@.modules[id.0 as int],
    {
        &self.modules[id.0]
    }

    /// The global with this handle.
    pub fn global(&self, id: GlobalId) -> (global: &GlobalInstance)
        requires
            self@.has_global(id),
        ensures
            global@ == self@.globals[id.0 as int],
    {
        &self.globals[id.0]
    }

    /// Gives the global with this handle the value `val`, if it is mutable.
    pub fn set_global(&mut self, id: GlobalId, val: RuntimeValue) -> (result: Result<(), Error>)
        requires
            old(self)@.has_global(id),
        ensures
            match result {
                Ok(()) => {
                    &&& old(self)@.globals[id.0 as int].mutable
                    &&& final(self)@ == (HeapView {
                        globals: old(self)@.globals.update(
                            id.0 as int,
                            GlobalView { val, mutable: true },
                        ),
                        ..old(self)@
                    })
                },
                Err(e) => {
                    &&& !old(self)@.globals[id.0 as int].mutable
                    &&& final(self)@ == old(self)@
                    &&& e@ == instance::immutable_global()
                },
            },
            old(self)@.grows_to(final(self)@),
            old(self)@.wf() ==> final(self)@.wf(),
    {
        let result = self.globals[id.0].set(val);
        proof {
            if result is Ok {
                assert(self@ =~= (HeapView {
                    globals: old(self)@.globals.update(
                        id.0 as int,
                        GlobalView { val, mutable: true },
                    ),
                    ..old(self)@
                }));
            } else {
                assert(self@ =~= old(self)@);
            }
            if old(self)@.wf() {
                laws::law_growth_keeps_the_heap_sound(old(self)@, self@);
            }
        }
        result
    }

    /// Takes in a global.
    pub(crate) fn push_global(&mut self, global: GlobalInstance) -> (id: GlobalId)
        ensures
            id.0 == old(self)@.globals.len(),
            final(self)@ == (HeapView {
                globals: old(self)@.globals.push(global@),
                ..old(self)@
            }),
            old(self)@.grows_to(final(self)@),
            old(self)@.wf() ==> final(self)@.wf(),
    {
        let id = GlobalId(self.globals.len());
        self.globals.push(global);
        assert(self@ =~= (HeapView { globals: old(self)@.globals.push(global@), ..old(self)@ }));
        proof {
            if old(self)@.wf() {
                laws::law_growth_keeps_the_heap_sound(old(self)@, self@);
            }
        }
        id
    }

    /// A handle can be had for everything in the heap.
    pub proof fn lemma_sizes(&self)
        ensures
            self@.modules.len() <= usize::MAX,
            self@.globals.len() <= usize::MAX,
    {
        assert(self.modules@.len() == self.modules.len());
        assert(self.globals@.len() == self.globals.len());
    }

    /// The handle that the next instance will get.
    pub(crate) fn next_module(&self) -> (id: ModuleId)
        ensures
            id.0 == self@.modules.len(),
    {
        ModuleId(self.modules.len())
    }

    /// Takes in an instance.
    pub fn push_module(&mut self, instance: ModuleInstance) -> (id: ModuleId)
        ensures
            id.0 == old(self)@.modules.len(),
            final(self)@ == (HeapView {
                modules: old(self)@.modules.push(instance@),
                ..old(self)@
            }),
            old(self)@.grows_to(final(self)@),
            old(self)@.wf() && final(self)@.has_instance(instance@) ==> final(self)@.wf(),
    {
        let id = ModuleId(self.modules.len());
        self.modules.push(instance);
        assert(self@ =~= (HeapView { modules: old(self)@.modules.push(instance@), ..old(self)@ }));
        proof {
            if old(self)@.wf() && self@.has_instance(instance@) {
                laws::law_growth_keeps_the_heap_sound(old(self)@, self@);
            }
        }
        id
    }
}

} // verus!
