//! Laws of linking: which values satisfy which imports, field by field, and what is said of those
//! that do not.

use std::rc::Rc;

use vstd::prelude::*;

use crate::error;
use crate::error::{Error, ErrorView, Reason, ReasonView};
use crate::func::FuncInstance;
use crate::instance::{ExternVal, MemoryInstance, TableInstance};
use crate::link;
use crate::link::match_limits;
use crate::module::{External, ImportEntry, Module};
use crate::ready::check_imports;
use crate::text;
use crate::types::{FunctionType, ResizableLimits};

verus! {

/// Bounds match where what is there is at least as large as what is asked for and, if a maximum is
/// asked for, has a maximum that is no larger; and only there.
pub proof fn law_match_limits(l1: ResizableLimits, l2: ResizableLimits, result: Result<(), Error>)
    requires
        call_ensures(match_limits, (&l1, &l2), result),
    ensures
        result is Ok <==> l1.initial >= l2.initial && (l2.maximum is None || (l1.maximum is Some
            && l1.maximum->0 <= l2.maximum->0)),
        l1.initial < l2.initial ==> {
            &&& result matches Err(Error::Initialization(Reason::Message(message)))
            &&& message@ == "trying to import with limits l1.initial="@ + text::decimal(
                l1.initial as nat,
            ) + " and l2.initial="@ + text::decimal(l2.initial as nat)
        },
        l1.initial >= l2.initial && l1.maximum is None && l2.maximum is Some ==> {
            &&& result matches Err(Error::Initialization(Reason::Message(message)))
            &&& message@ == "trying to import with limits l1.max="@ + "None"@ + " and l2.max="@ + (
            "Some("@ + text::decimal(l2.maximum->0 as nat) + ")"@)
        },
        l1.initial >= l2.initial && l1.maximum is Some && l2.maximum is Some && l1.maximum->0
            > l2.maximum->0 ==> {
            &&& result matches Err(Error::Initialization(Reason::Message(message)))
            &&& message@ == "trying to import with limits l1.max="@ + ("Some("@ + text::decimal(
                l1.maximum->0 as nat,
            ) + ")"@) + " and l2.max="@ + ("Some("@ + text::decimal(l2.maximum->0 as nat) + ")"@)
        },
{
}

/// Bounds that match still match where less is asked for, and where there is more to begin with.
pub proof fn law_match_limits_is_monotone(
    l1: ResizableLimits,
    l2: ResizableLimits,
    larger: ResizableLimits,
    smaller: ResizableLimits,
    before: Result<(), Error>,
    after: Result<(), Error>,
)
    requires
        call_ensures(match_limits, (&l1, &l2), before),
        call_ensures(match_limits, (&larger, &smaller), after),
        before is Ok,
        larger.initial >= l1.initial,
        larger.maximum == l1.maximum,
        smaller.initial <= l2.initial,
        smaller.maximum == l2.maximum || smaller.maximum is None,
    ensures
        after is Ok,
{
}

/// A function satisfies an import of a function where its parameter types, one by one and in
/// order, and its return type are those of the type that the import names, and only there. Else the
/// refusal names both signatures and the field of the import.
pub proof fn law_function_import(
    module: Module,
    import: ImportEntry,
    idx: u32,
    func: Rc<FuncInstance>,
    actual: Rc<FunctionType>,
    position: int,
)
    requires
        import.entry == External::Function(idx),
        idx < module.types@.len(),
        *func matches FuncInstance::Internal { func_type, .. } ==> func_type == actual,
        *func matches FuncInstance::Host { func_type, .. } ==> func_type == actual,
    ensures
        ({
            let expected = module.types@[idx as int];
            let refusal = link::import_refusal(
                module.type_views(),
                import,
                ExternVal::Func(func)@,
                position,
            );
            &&& refusal is None <==> {
                &&& actual.params@.len() == expected.params@.len()
                &&& forall|i: int|
                    0 <= i < expected.params@.len() ==> #[trigger] actual.params@[i]
                        == expected.params@[i]
                &&& actual.return_type == expected.return_type
            }
            &&& refusal is None || refusal == Some(
                ErrorView::Initialization(
                    ReasonView::Message(
                        "Expected function with type "@ + expected@.text()
                            + ", but actual type is "@ + actual@.text() + " for entry "@
                            + import.field@,
                    ),
                ),
            )
        }),
{
    let expected = module.types@[idx as int];
    assert(module.type_views()[idx as int] == expected@);
    if actual.params@.len() == expected.params@.len() && (forall|i: int|
        0 <= i < expected.params@.len() ==> #[trigger] actual.params@[i] == expected.params@[i]) {
        assert(actual.params@ =~= expected.params@);
    }
}

/// A table satisfies an import of a table just where its bounds match those that are asked for.
pub proof fn law_table_import(
    module: Module,
    import: ImportEntry,
    required: ResizableLimits,
    table: Rc<TableInstance>,
    position: int,
)
    requires
        import.entry matches External::Table(t) && t.limits == required,
    ensures
        link::import_refusal(
            module.type_views(),
            import,
            ExternVal::Table(table)@,
            position,
        ) is None <==> table.limits.initial >= required.initial && (required.maximum is None || (
        table.limits.maximum is Some && table.limits.maximum->0 <= required.maximum->0)),
{
}

/// A memory satisfies an import of a memory just where its bounds match those that are asked for.
pub proof fn law_memory_import(
    module: Module,
    import: ImportEntry,
    required: ResizableLimits,
    memory: Rc<MemoryInstance>,
    position: int,
)
    requires
        import.entry matches External::Memory(t) && t.limits == required,
    ensures
        link::import_refusal(
            module.type_views(),
            import,
            ExternVal::Memory(memory)@,
            position,
        ) is None <==> memory.limits.initial >= required.initial && (required.maximum is None || (
        memory.limits.maximum is Some && memory.limits.maximum->0 <= required.maximum->0)),
{
}

/// A table or a memory that does not satisfy an import is refused in the words in which its bounds
/// are.
pub proof fn law_bounds_are_refused_alike(
    module: Module,
    import: ImportEntry,
    required: ResizableLimits,
    val: ExternVal,
    position: int,
    result: Result<(), Error>,
)
    requires
        match (import.entry, val) {
            (External::Table(t), ExternVal::Table(table)) => t.limits == required && call_ensures(
                match_limits,
                (&table.limits, &required),
                result,
            ),
            (External::Memory(t), ExternVal::Memory(memory)) => t.limits == required
                && call_ensures(match_limits, (&memory.limits, &required), result),
            _ => false,
        },
    ensures
        match result {
            Ok(()) => link::import_refusal(module.type_views(), import, val@, position) is None,
            Err(e) => link::import_refusal(module.type_views(), import, val@, position) == Some(
                e@,
            ),
        },
{
}

/// Any global satisfies an import of a global, and nothing satisfies an import of another kind.
pub proof fn law_kinds_must_agree(module: Module, import: ImportEntry, val: ExternVal, position: int)
    ensures
        import.entry is Global && val is Global ==> link::import_refusal(
            module.type_views(),
            import,
            val@,
            position,
        ) is None,
        (import.entry is Function) != (val is Func) || (import.entry is Table) != (val is Table) || (
        import.entry is Memory) != (val is Memory) || (import.entry is Global) != (val is Global)
            ==> link::import_refusal(module.type_views(), import, val@, position) == Some(
            ErrorView::Initialization(ReasonView::Kind { position, expected: import.entry }),
        ),
{
}

/// Values satisfy the imports of a module where there is one for each import and each satisfies
/// its own: a function by its signature, a table or a memory by its bounds, a global by being one.
pub proof fn law_check_imports(module: Module, vals: &[ExternVal], result: Result<(), Error>)
    requires
        link::import_types_exist(module.imports@, module.types@.len()),
        call_ensures(check_imports, (&module, vals), result),
    ensures
        result is Ok <==> {
            &&& vals@.len() == module.imports@.len()
            &&& forall|i: int|
                #![trigger vals@[i]]
                0 <= i < vals@.len() ==> match (module.imports@[i].entry, vals@[i]) {
                    (External::Function(idx), ExternVal::Func(func)) => {
                        let expected = module.types@[idx as int];
                        match *func {
                            FuncInstance::Internal { func_type, .. } => func_type.params@
                                == expected.params@ && func_type.return_type
                                == expected.return_type,
                            FuncInstance::Host { func_type, .. } => func_type.params@
                                == expected.params@ && func_type.return_type
                                == expected.return_type,
                        }
                    },
                    (External::Table(t), ExternVal::Table(table)) => table.limits.initial
                        >= t.limits.initial && (t.limits.maximum is None || (
                    table.limits.maximum is Some && table.limits.maximum->0
                        <= t.limits.maximum->0)),
                    (External::Memory(t), ExternVal::Memory(memory)) => memory.limits.initial
                        >= t.limits.initial && (t.limits.maximum is None || (
                    memory.limits.maximum is Some && memory.limits.maximum->0
                        <= t.limits.maximum->0)),
                    (External::Global(_), ExternVal::Global(_)) => true,
                    _ => false,
                }
        },
        vals@.len() != module.imports@.len() ==> {
            &&& result matches Err(Error::Initialization(Reason::Message(message)))
            &&& message@ == "extern_vals length is not equal to import section entries"@
        },
{
    let views = link::extern_views(vals@);
    let checks = link::import_checks(module.type_views(), module.imports@, views);
    error::lemma_no_refusal(checks);
    assert forall|i: int| 0 <= i < vals@.len() && vals@.len() == module.imports@.len() implies (
    #[trigger] checks[i] is None <==> match (module.imports@[i].entry, vals@[i]) {
        (External::Function(idx), ExternVal::Func(func)) => {
            let expected = module.types@[idx as int];
            match *func {
                FuncInstance::Internal { func_type, .. } => func_type.params@ == expected.params@
                    && func_type.return_type == expected.return_type,
                FuncInstance::Host { func_type, .. } => func_type.params@ == expected.params@
                    && func_type.return_type == expected.return_type,
            }
        },
        (External::Table(t), ExternVal::Table(table)) => table.limits.initial >= t.limits.initial
            && (t.limits.maximum is None || (table.limits.maximum is Some
            && table.limits.maximum->0 <= t.limits.maximum->0)),
        (External::Memory(t), ExternVal::Memory(memory)) => memory.limits.initial
            >= t.limits.initial && (t.limits.maximum is None || (memory.limits.maximum is Some
            && memory.limits.maximum->0 <= t.limits.maximum->0)),
        (External::Global(_), ExternVal::Global(_)) => true,
        _ => false,
    }) by {
        assert(views[i] == vals@[i]@);
    }
    if vals@.len() == module.imports@.len() {
        if result is Ok {
            assert forall|i: int| #![trigger vals@[i]] 0 <= i < vals@.len() implies checks[i] is None by {
            }
        } else {
            let i = choose|i: int| 0 <= i < checks.len() && !(#[trigger] checks[i] is None);
            assert(vals@[i] == vals@[i]);
        }
    }
}

/// What is imported is, in each index space, what is of its kind among the values that are
/// offered, in their order.
pub proof fn law_imported_values_by_kind(vals: Seq<ExternVal>)
    ensures
        link::funcs_of(link::extern_views(vals)) == vals.filter(
            |v: ExternVal| v is Func,
        ).map_values(|v: ExternVal| v->Func_0@),
        link::tables_of(link::extern_views(vals)) == vals.filter(
            |v: ExternVal| v is Table,
        ).map_values(|v: ExternVal| *v->Table_0),
        link::memories_of(link::extern_views(vals)) == vals.filter(
            |v: ExternVal| v is Memory,
        ).map_values(|v: ExternVal| *v->Memory_0),
        link::globals_of(link::extern_views(vals)) == vals.filter(
            |v: ExternVal| v is Global,
        ).map_values(|v: ExternVal| v->Global_0),
    decreases vals.len(),
{
    reveal(Seq::filter);
    if vals.len() > 0 {
        law_imported_values_by_kind(vals.drop_last());
        let views = link::extern_views(vals);
        assert(views.drop_last() =~= link::extern_views(vals.drop_last()));
        assert(link::funcs_of(views) =~= vals.filter(|v: ExternVal| v is Func).map_values(
            |v: ExternVal| v->Func_0@,
        ));
        assert(link::tables_of(views) =~= vals.filter(|v: ExternVal| v is Table).map_values(
            |v: ExternVal| *v->Table_0,
        ));
        assert(link::memories_of(views) =~= vals.filter(|v: ExternVal| v is Memory).map_values(
            |v: ExternVal| *v->Memory_0,
        ));
        assert(link::globals_of(views) =~= vals.filter(|v: ExternVal| v is Global).map_values(
            |v: ExternVal| v->Global_0,
        ));
    }
}

/// The first import that is not satisfied gives the refusal, whatever follows it.
pub proof fn law_first_refusal_counts(
    module: Module,
    vals: &[ExternVal],
    k: int,
    result: Result<(), Error>,
)
    requires
        call_ensures(check_imports, (&module, vals), result),
        vals@.len() == module.imports@.len(),
        0 <= k < vals@.len(),
        forall|i: int|
            0 <= i < k ==> link::import_refusal(
                module.type_views(),
                module.imports@[i],
                (#[trigger] vals@[i])@,
                i,
            ) is None,
        link::import_refusal(module.type_views(), module.imports@[k], vals@[k]@, k) is Some,
    ensures
        result matches Err(e) && link::import_refusal(
            module.type_views(),
            module.imports@[k],
            vals@[k]@,
            k,
        ) == Some(e@),
{
    let views = link::extern_views(vals@);
    let checks = link::import_checks(module.type_views(), module.imports@, views);
    error::lemma_no_refusal(checks.take(k));
    assert forall|i: int| 0 <= i < k implies #[trigger] checks.take(k)[i] is None by {
        assert(views[i] == vals@[i]@);
    }
    assert(views[k] == vals@[k]@);
    error::lemma_first_refusal_is_final(checks, k);
}

} // verus!
