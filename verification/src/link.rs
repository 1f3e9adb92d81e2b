//! Linking: which values satisfy the imports of a module, and where they go in its instance.

use std::rc::Rc;

use vstd::pervasive::unreached;
use vstd::prelude::*;
use vstd::string::*;

use crate::error;
use crate::error::{Error, ErrorView, Reason, ReasonView};
use crate::func::FuncView;
use crate::instance::{ExternVal, ExternView, GlobalId, MemoryInstance, ModuleInstance, ModuleView, TableInstance};
use crate::module::{External, ImportEntry};
use crate::text;
use crate::types;
use crate::types::{FunctionTypeView, ResizableLimits};

verus! {

/// Whether something with bounds `actual` can stand where bounds `required` are asked for: it is
/// at least as large to begin with, and grows no further.
pub open spec fn limits_match(actual: ResizableLimits, required: ResizableLimits) -> bool {
    &&& actual.initial >= required.initial
    &&& match required.maximum {
        None => true,
        Some(m2) => match actual.maximum {
            Some(m1) => m1 <= m2,
            None => false,
        },
    }
}

/// Why something with bounds `l1` cannot stand where bounds `l2` are asked for.
pub open spec fn limits_refusal(l1: ResizableLimits, l2: ResizableLimits) -> Option<ErrorView> {
    if limits_match(l1, l2) {
        None
    } else if l1.initial < l2.initial {
        Some(
            error::in_words(
                "trying to import with limits l1.initial="@ + text::decimal(l1.initial as nat)
                    + " and l2.initial="@ + text::decimal(l2.initial as nat),
            ),
        )
    } else {
        Some(
            error::in_words(
                "trying to import with limits l1.max="@ + types::maximum_text(l1.maximum)
                    + " and l2.max="@ + types::maximum_text(l2.maximum),
            ),
        )
    }
}

/// Checks that something with bounds `l1` can stand where bounds `l2` are asked for.
pub fn match_limits(l1: &ResizableLimits, l2: &ResizableLimits) -> (result: Result<(), Error>)
    ensures
        match result {
            Ok(()) => limits_match(*l1, *l2),
            Err(e) => limits_refusal(*l1, *l2) == Some(e@),
        },
{
    if l1.initial < l2.initial {
        let mut message: String = "trying to import with limits l1.initial=".to_owned();
        text::push_decimal(&mut message, l1.initial as u64);
        message.append(" and l2.initial=");
        text::push_decimal(&mut message, l2.initial as u64);
        return Err(Error::Initialization(Reason::Message(message)));
    }
    match (l1.maximum, l2.maximum) {
        (_, None) => Ok(()),
        (Some(m1), Some(m2)) if m1 <= m2 => Ok(()),
        _ => {
            let mut message: String = "trying to import with limits l1.max=".to_owned();
            types::push_maximum(&mut message, l1.maximum);
            message.append(" and l2.max=");
            types::push_maximum(&mut message, l2.maximum);
            Err(Error::Initialization(Reason::Message(message)))
        },
    }
}

/// The message about a function whose signature is not the one that is asked for.
pub open spec fn func_type_message(
    expected: FunctionTypeView,
    actual: FunctionTypeView,
    field: Seq<char>,
) -> Seq<char> {
    "Expected function with type "@ + expected.text() + ", but actual type is "@ + actual.text()
        + " for entry "@ + field
}

/// Why `val` does not satisfy `import`, at this position in a module with these types. A function must have the
/// very signature that is asked for, a table or a memory must keep the bounds, and any global
/// will do.
pub open spec fn import_refusal(
    types: Seq<FunctionTypeView>,
    import: ImportEntry,
    val: ExternView,
    position: int,
) -> Option<ErrorView> {
    match (import.entry, val) {
        (External::Function(idx), ExternView::Func(func)) => {
            if types[idx as int] == func.func_type() {
                None
            } else {
                Some(
                    error::in_words(
                        func_type_message(types[idx as int], func.func_type(), import.field@),
                    ),
                )
            }
        },
        (External::Table(t), ExternView::Table(table)) => limits_refusal(table.limits, t.limits),
        (External::Memory(t), ExternView::Memory(memory)) => limits_refusal(
            memory.limits,
            t.limits,
        ),
        (External::Global(_), ExternView::Global(_)) => None,
        _ => Some(
            ErrorView::Initialization(ReasonView::Kind { position, expected: import.entry }),
        ),
    }
}

/// The functions among `vals`, in order.
pub open spec fn funcs_of(vals: Seq<ExternView>) -> Seq<FuncView>
    decreases vals.len(),
{
    if vals.len() == 0 {
        Seq::empty()
    } else {
        match vals.last() {
            ExternView::Func(func) => funcs_of(vals.drop_last()).push(func),
            _ => funcs_of(vals.drop_last()),
        }
    }
}

/// The tables among `vals`, in order.
pub open spec fn tables_of(vals: Seq<ExternView>) -> Seq<TableInstance>
    decreases vals.len(),
{
    if vals.len() == 0 {
        Seq::empty()
    } else {
        match vals.last() {
            ExternView::Table(table) => tables_of(vals.drop_last()).push(table),
            _ => tables_of(vals.drop_last()),
        }
    }
}

/// The memories among `vals`, in order.
pub open spec fn memories_of(vals: Seq<ExternView>) -> Seq<MemoryInstance>
    decreases vals.len(),
{
    if vals.len() == 0 {
        Seq::empty()
    } else {
        match vals.last() {
            ExternView::Memory(memory) => memories_of(vals.drop_last()).push(memory),
            _ => memories_of(vals.drop_last()),
        }
    }
}

/// The globals among `vals`, in order.
pub open spec fn globals_of(vals: Seq<ExternView>) -> Seq<GlobalId>
    decreases vals.len(),
{
    if vals.len() == 0 {
        Seq::empty()
    } else {
        match vals.last() {
            ExternView::Global(global) => globals_of(vals.drop_last()).push(global),
            _ => globals_of(vals.drop_last()),
        }
    }
}

/// An instance with these types and with imported values only.
pub open spec fn linked(types: Seq<FunctionTypeView>, vals: Seq<ExternView>) -> ModuleView {
    ModuleView {
        types,
        tables: tables_of(vals),
        funcs: funcs_of(vals),
        memories: memories_of(vals),
        globals: globals_of(vals),
        exports: Map::empty(),
    }
}

/// Models of values that are offered for import.
pub open spec fn extern_views(vals: Seq<ExternVal>) -> Seq<ExternView> {
    Seq::new(vals.len(), |i: int| vals[i]@)
}

/// Checks `val` against `import` and, where it satisfies it, adds it to the instance; else the
/// instance stays as it is.
fn link_import(
    instance: &mut ModuleInstance,
    import: &ImportEntry,
    val: &ExternVal,
    position: usize,
) -> (result: Result<(), Error>)
    requires
        import.entry matches External::Function(idx) ==> idx < old(instance)@.types.len(),
    ensures
        match result {
            Ok(()) => {
                &&& import_refusal(old(instance)@.types, *import, val@, position as int) is None
                &&& final(instance)@ == (match val@ {
                    ExternView::Func(func) => ModuleView {
                        funcs: old(instance)@.funcs.push(func),
                        ..old(instance)@
                    },
                    ExternView::Table(table) => ModuleView {
                        tables: old(instance)@.tables.push(table),
                        ..old(instance)@
                    },
                    ExternView::Memory(memory) => ModuleView {
                        memories: old(instance)@.memories.push(memory),
                        ..old(instance)@
                    },
                    ExternView::Global(global) => ModuleView {
                        globals: old(instance)@.globals.push(global),
                        ..old(instance)@
                    },
                })
            },
            Err(e) => {
                &&& import_refusal(old(instance)@.types, *import, val@, position as int) == Some(e@)
                &&& final(instance)@ == old(instance)@
            },
        },
{
    match (&import.entry, val) {
        (External::Function(idx), ExternVal::Func(func)) => {
            let expected = match instance.type_by_index(*idx) {
                Some(expected) => expected,
                None => unreached(),
            };
            let actual = func.func_type();
            if *expected != *actual {
                let mut message: String = "Expected function with type ".to_owned();
                expected.push_text(&mut message);
                message.append(", but actual type is ");
                actual.push_text(&mut message);
                message.append(" for entry ");
                message.append(import.field.as_str());
                return Err(Error::Initialization(Reason::Message(message)));
            }
            instance.push_func(Rc::clone(func));
            Ok(())
        },
        (External::Table(t), ExternVal::Table(table)) => {
            match_limits(&table.limits, &t.limits)?;
            instance.push_table(Rc::clone(table));
            Ok(())
        },
        (External::Memory(t), ExternVal::Memory(memory)) => {
            match_limits(&memory.limits, &t.limits)?;
            instance.push_memory(Rc::clone(memory));
            Ok(())
        },
        (External::Global(_), ExternVal::Global(global)) => {
            instance.push_global(*global);
            Ok(())
        },
        (expected, _) => Err(
            Error::Initialization(Reason::Kind { position, expected: *expected }),
        ),
    }
}

/// The outcome of checking each import in turn.
pub open spec fn import_checks(
    types: Seq<FunctionTypeView>,
    imports: Seq<ImportEntry>,
    vals: Seq<ExternView>,
) -> Seq<Option<ErrorView>> {
    Seq::new(imports.len(), |i: int| import_refusal(types, imports[i], vals[i], i))
}

/// Why `vals` do not satisfy `imports`: there is not one value for each import, or else the first
/// mismatch in the order of the imports.
pub open spec fn link_refusal(
    types: Seq<FunctionTypeView>,
    imports: Seq<ImportEntry>,
    vals: Seq<ExternView>,
) -> Option<ErrorView> {
    if imports.len() != vals.len() {
        Some(error::in_words("extern_vals length is not equal to import section entries"@))
    } else {
        error::first_refusal(import_checks(types, imports, vals))
    }
}

/// An instance as it is left where linking is refused: it has its types and the values that
/// satisfied their imports before the first mismatch, or none where there is not one value for
/// each import.
pub open spec fn partly_linked(
    types: Seq<FunctionTypeView>,
    imports: Seq<ImportEntry>,
    vals: Seq<ExternView>,
) -> ModuleView {
    let k = if imports.len() != vals.len() {
        0
    } else {
        error::passed(import_checks(types, imports, vals))
    };
    linked(types, vals.take(k as int))
}

/// Whether each function import names a type.
pub open spec fn import_types_exist(imports: Seq<ImportEntry>, type_count: nat) -> bool {
    forall|i: int|
        0 <= i < imports.len() ==> (#[trigger] imports[i].entry matches External::Function(idx)
            ==> idx < type_count)
}

/// Checks `vals` against `imports` one by one and adds them to an instance that has its types
/// already and nothing else.
pub(crate) fn link_imports(
    instance: &mut ModuleInstance,
    imports: &Vec<ImportEntry>,
    vals: &[ExternVal],
) -> (result: Result<(), Error>)
    requires
        old(instance)@ == (ModuleView { types: old(instance)@.types, ..ModuleView::empty() }),
        import_types_exist(imports@, old(instance)@.types.len()),
    ensures
        match result {
            Ok(()) => {
                &&& link_refusal(old(instance)@.types, imports@, extern_views(vals@)) is None
                &&& final(instance)@ == linked(old(instance)@.types, extern_views(vals@))
            },
            Err(e) => {
                &&& link_refusal(old(instance)@.types, imports@, extern_views(vals@)) == Some(e@)
                &&& final(instance)@ == partly_linked(
                    old(instance)@.types,
                    imports@,
                    extern_views(vals@),
                )
            },
        },
{
    let ghost types = instance@.types;
    let ghost views = extern_views(vals@);
    assert(views.take(0) =~= Seq::empty());
    if imports.len() != vals.len() {
        let message: String = "extern_vals length is not equal to import section entries".to_owned();
        return Err(Error::Initialization(Reason::Message(message)));
    }
    let ghost checks = import_checks(types, imports@, views);
    assert(checks.take(0) =~= Seq::empty());
    let mut i: usize = 0;
    while i < imports.len()
        invariant
            imports@.len() == vals@.len(),
            types == old(instance)@.types,
            views == extern_views(vals@),
            checks == import_checks(types, imports@, views),
            import_types_exist(imports@, types.len()),
            i <= imports@.len(),
            instance@ == linked(types, views.take(i as int)),
            error::first_refusal(checks.take(i as int)) is None,
        ensures
            i == imports@.len(),
        decreases imports@.len() - i,
    {
        assert(imports@[i as int].entry matches External::Function(idx) ==> idx < types.len());
        assert(checks.take(i + 1).drop_last() =~= checks.take(i as int));
        assert(views.take(i + 1).drop_last() =~= views.take(i as int));
        match link_import(instance, &imports[i], &vals[i], i) {
            Ok(()) => {},
            Err(e) => {
                proof {
                    error::lemma_first_refusal_is_final(checks, i as int);
                }
                return Err(e);
            },
        }
        i += 1;
    }
    assert(views.take(i as int) =~= views);
    assert(checks.take(i as int) =~= checks);
    Ok(())
}

} // verus!
