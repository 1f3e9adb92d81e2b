//! A check that a module can be instantiated, made before it is.

use vstd::prelude::*;

use crate::allocate;
use crate::allocate::Prepared;
use crate::error;
use crate::error::Error;
use crate::func::FuncInstance;
use crate::heap::Heap;
use crate::init;
use crate::init::const_value;
use crate::instance::{ExternVal, ModuleInstance};
use crate::instantiate;
use crate::instantiate::as_unsigned;
use crate::link;
use crate::link::link_imports;
use crate::module::{InitExpr, Module};
use crate::store::Store;
use crate::valid;
use crate::valid::check_valid;
use crate::value::RuntimeValue;

verus! {

/// Tells whether no answer is a failure.
fn all_ok<T>(answers: &Vec<Result<T, Error>>) -> (ok: bool)
    ensures
        ok == (error::first_refusal(allocate::failures(answers@)) is None),
{
    let mut i: usize = 0;
    while i < answers.len()
        invariant
            i <= answers@.len(),
            forall|j: int|
                0 <= j < i ==> #[trigger] allocate::failures(answers@)[j] is None,
        decreases answers@.len() - i,
    {
        if answers[i].is_err() {
            proof {
                error::lemma_no_refusal(allocate::failures(answers@));
                assert(allocate::failures(answers@)[i as int] is Some);
            }
            return false;
        }
        i += 1;
    }
    proof {
        error::lemma_no_refusal(allocate::failures(answers@));
    }
    true
}

/// Checks the values that a module is to import, one by one, without allocating anything.
pub fn check_imports(module: &Module, extern_vals: &[ExternVal]) -> (result: Result<(), Error>)
    requires
        link::import_types_exist(module.imports@, module.types@.len()),
    ensures
        match result {
            Ok(()) => link::link_refusal(
                module.type_views(),
                module.imports@,
                link::extern_views(extern_vals@),
            ) is None,
            Err(e) => link::link_refusal(
                module.type_views(),
                module.imports@,
                link::extern_views(extern_vals@),
            ) == Some(e@),
        },
{
    let mut instance = ModuleInstance::new();
    Store::new().define_types(module, &mut instance);
    link_imports(&mut instance, &module.imports, extern_vals)
}

impl Heap {
    /// Tells whether the handles in all of `vals` are in range for this heap.
    fn check_externs(&self, vals: &[ExternVal]) -> (ok: bool)
        ensures
            ok == self@.has_externs(link::extern_views(vals@)),
    {
        let ghost views = link::extern_views(vals@);
        let mut i: usize = 0;
        while i < vals.len()
            invariant
                views == link::extern_views(vals@),
                i <= vals@.len(),
                forall|j: int| 0 <= j < i ==> self@.has_extern(#[trigger] views[j]),
            decreases vals@.len() - i,
        {
            let in_range = match &vals[i] {
                ExternVal::Func(func) => match &**func {
                    FuncInstance::Internal { module, .. } => self.has_module(*module),
                    FuncInstance::Host { .. } => true,
                },
                ExternVal::Global(global) => self.has_global(*global),
                _ => true,
            };
            assert(in_range == self@.has_extern(views[i as int]));
            if !in_range {
                return false;
            }
            i += 1;
        }
        true
    }

    /// The current values of the globals among `vals`.
    fn imported_values(&self, vals: &[ExternVal]) -> (values: Vec<RuntimeValue>)
        requires
            self@.has_externs(link::extern_views(vals@)),
        ensures
            values@ == self@.values(link::globals_of(link::extern_views(vals@))),
    {
        let ghost views = link::extern_views(vals@);
        let mut values: Vec<RuntimeValue> = Vec::new();
        let mut i: usize = 0;
        assert(values@ =~= self@.values(link::globals_of(views.take(0))));
        while i < vals.len()
            invariant
                self@.has_externs(views),
                views == link::extern_views(vals@),
                i <= vals@.len(),
                values@ == self@.values(link::globals_of(views.take(i as int))),
            decreases vals@.len() - i,
        {
            assert(views.take(i + 1).drop_last() =~= views.take(i as int));
            assert(self@.has_extern(views[i as int]));
            if let ExternVal::Global(global) = &vals[i] {
                values.push(self.global(*global).get());
                assert(values@ =~= self@.values(link::globals_of(views.take(i + 1))));
            }
            i += 1;
        }
        assert(views.take(i as int) =~= views);
        values
    }

    /// The values that the globals of an instance would begin with.
    fn predict_values(&self, module: &Module, vals: &[ExternVal]) -> (values: Vec<RuntimeValue>)
        requires
            self@.has_externs(link::extern_views(vals@)),
            forall|i: int|
                0 <= i < module.globals@.len() ==> init::is_const_expr(
                    (#[trigger] module.globals@[i]).init_expr,
                    link::globals_of(link::extern_views(vals@)).len() + i as nat,
                ),
        ensures
            values@ == instantiate::initial_values(self@, *module, link::extern_views(vals@)),
    {
        let mut values: Vec<RuntimeValue> = self.imported_values(vals);
        let ghost imported = values@;
        let mut i: usize = 0;
        assert(values@ =~= imported + allocate::defined_values(module.globals@.take(0), imported));
        while i < module.globals.len()
            invariant
                forall|j: int|
                    0 <= j < module.globals@.len() ==> init::is_const_expr(
                        (#[trigger] module.globals@[j]).init_expr,
                        imported.len() + j as nat,
                    ),
                i <= module.globals@.len(),
                values@ == imported + allocate::defined_values(
                    module.globals@.take(i as int),
                    imported,
                ),
            decreases module.globals@.len() - i,
        {
            let ghost before = module.globals@.take(i as int);
            let ghost after = module.globals@.take(i + 1);
            proof {
                allocate::lemma_defined_values_len(before, imported);
                assert(after.drop_last() =~= before);
            }
            values.push(const_value(&module.globals[i].init_expr, &values));
            assert(values@ =~= imported + allocate::defined_values(after, imported));
            i += 1;
        }
        assert(module.globals@.take(i as int) =~= module.globals@);
        values
    }

    /// Tells whether a module can be instantiated on this heap with `extern_vals` or refused.
    pub fn can_instantiate(
        &self,
        module: &Module,
        extern_vals: &[ExternVal],
        prepared: &Prepared,
    ) -> (ok: bool)
        ensures
            ok == instantiate::is_ready(self@, *module, link::extern_views(extern_vals@), *prepared),
    {
        let ghost vals = link::extern_views(extern_vals@);
        if !self.check_externs(extern_vals) {
            return false;
        }
        match &prepared.validation {
            Err(_) => true,
            Ok(aux) => {
                if !check_valid(module, aux) {
                    return false;
                }
                if check_imports(module, extern_vals).is_err() || !all_ok(&prepared.tables)
                    || !all_ok(&prepared.memories) {
                    return true;
                }
                if prepared.tables.len() != module.tables.len() || prepared.memories.len()
                    != module.memories.len() {
                    return false;
                }
                proof {
                    valid::lemma_linked_counts(module.type_views(), module.imports@, vals);
                    allocate::lemma_defined_values_len(
                        module.globals@,
                        self@.values(link::globals_of(vals)),
                    );
                }
                let values = self.predict_values(module, extern_vals);
                check_segments(module, &values)
            },
        }
    }
}

/// Where a segment begins, if its offset is a number of 32 bits.
fn const_offset(expr: &InitExpr, values: &Vec<RuntimeValue>) -> (offset: Option<u32>)
    requires
        init::is_const_expr(*expr, values@.len()),
    ensures
        offset == instantiate::offset_of(*expr, values@),
{
    match const_value(expr, values) {
        RuntimeValue::I32(v) => Some(as_unsigned(v)),
        _ => None,
    }
}

/// Tells whether every segment has an offset, and no place that is to be filled lies beyond the
/// numbers.
fn check_segments(module: &Module, values: &Vec<RuntimeValue>) -> (ok: bool)
    requires
        forall|i: int|
            0 <= i < module.elements@.len() ==> init::is_const_expr(
                (#[trigger] module.elements@[i]).offset,
                values@.len(),
            ),
        forall|i: int|
            0 <= i < module.data@.len() ==> init::is_const_expr(
                (#[trigger] module.data@[i]).offset,
                values@.len(),
            ),
    ensures
        ok == instantiate::segments_fit(*module, values@),
{
    let mut i: usize = 0;
    while i < module.elements.len()
        invariant
            forall|j: int|
                0 <= j < module.elements@.len() ==> init::is_const_expr(
                    (#[trigger] module.elements@[j]).offset,
                    values@.len(),
                ),
            i <= module.elements@.len(),
            forall|j: int| 0 <= j < i ==> instantiate::element_fits(#[trigger] module.elements@[j], values@),
        decreases module.elements@.len() - i,
    {
        let segment = &module.elements[i];
        assert(init::is_const_expr(module.elements@[i as int].offset, values@.len()));
        let fits = match const_offset(&segment.offset, values) {
            Some(offset) => offset as u128 + segment.members.len() as u128 <= 0x1_0000_0000u128,
            None => false,
        };
        if !fits {
            assert(!instantiate::element_fits(module.elements@[i as int], values@));
            return false;
        }
        i += 1;
    }
    let mut k: usize = 0;
    while k < module.data.len()
        invariant
            forall|j: int|
                0 <= j < module.data@.len() ==> init::is_const_expr(
                    (#[trigger] module.data@[j]).offset,
                    values@.len(),
                ),
            k <= module.data@.len(),
            forall|j: int|
                0 <= j < k ==> instantiate::offset_of((#[trigger] module.data@[j]).offset, values@) is Some,
        decreases module.data@.len() - k,
    {
        assert(init::is_const_expr(module.data@[k as int].offset, values@.len()));
        if const_offset(&module.data[k].offset, values).is_none() {
            return false;
        }
        k += 1;
    }
    true
}

} // verus!
