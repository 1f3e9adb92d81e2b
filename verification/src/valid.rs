//! What allocation relies on of a validated module.

use std::collections::HashMap;

use vstd::prelude::*;

use crate::error;
use crate::init;
use crate::init::check_const_expr;
use crate::instance::ExternView;
use crate::link;
use crate::module::{DataSegment, ElementSegment, ExportEntry, External, ImportEntry, Internal, Module, ModuleAuxData};
use crate::types::FunctionTypeView;

verus! {

/// Index of the table that element segments fill.
pub const DEFAULT_TABLE_INDEX: u32 = 0;

/// Index of the memory that data segments fill.
pub const DEFAULT_MEMORY_INDEX: u32 = 0;

/// Sizes of the index spaces of a module.
pub struct Counts {
    pub funcs: nat,
    pub tables: nat,
    pub memories: nat,
    pub globals: nat,
}

/// How many imports there are of each kind.
pub open spec fn import_counts(imports: Seq<ImportEntry>) -> Counts
    decreases imports.len(),
{
    if imports.len() == 0 {
        Counts { funcs: 0, tables: 0, memories: 0, globals: 0 }
    } else {
        let before = import_counts(imports.drop_last());
        match imports.last().entry {
            External::Function(_) => Counts { funcs: before.funcs + 1, ..before },
            External::Table(_) => Counts { tables: before.tables + 1, ..before },
            External::Memory(_) => Counts { memories: before.memories + 1, ..before },
            External::Global(_) => Counts { globals: before.globals + 1, ..before },
        }
    }
}

/// The sizes of the index spaces of a module: imports and definitions together.
pub open spec fn counts(module: Module) -> Counts {
    let imported = import_counts(module.imports@);
    Counts {
        funcs: imported.funcs + module.functions@.len(),
        tables: imported.tables + module.tables@.len(),
        memories: imported.memories + module.memories@.len(),
        globals: imported.globals + module.globals@.len(),
    }
}

/// Whether an export names something that there is.
pub open spec fn export_exists(entry: ExportEntry, counts: Counts) -> bool {
    match entry.internal {
        Internal::Function(idx) => idx < counts.funcs,
        Internal::Table(idx) => idx < counts.tables,
        Internal::Memory(idx) => idx < counts.memories,
        Internal::Global(idx) => idx < counts.globals,
    }
}

/// Whether there are a table for an element segment to fill and the functions to fill it with.
pub open spec fn element_exists(segment: ElementSegment, counts: Counts) -> bool {
    &&& DEFAULT_TABLE_INDEX < counts.tables
    &&& init::is_const_expr(segment.offset, counts.globals)
    &&& forall|j: int| 0 <= j < segment.members@.len() ==> #[trigger] segment.members@[j] < counts.funcs
}

/// Whether there is a memory for a data segment to fill.
pub open spec fn data_exists(segment: DataSegment, counts: Counts) -> bool {
    &&& DEFAULT_MEMORY_INDEX < counts.memories
    &&& init::is_const_expr(segment.offset, counts.globals)
}

/// Whether everything that a module refers to exists, and `labels` has an entry for each function
/// that the module defines. Validation upholds this.
pub open spec fn is_valid(module: Module, labels: Map<usize, HashMap<usize, usize>>) -> bool {
    let all = counts(module);
    &&& link::import_types_exist(module.imports@, module.types@.len())
    &&& module.functions@.len() == module.bodies@.len()
    &&& forall|i: int|
        0 <= i < module.functions@.len() ==> #[trigger] module.functions@[i] < module.types@.len()
    &&& forall|i: usize| i < module.functions@.len() ==> #[trigger] labels.contains_key(i)
    &&& forall|i: int|
        0 <= i < module.globals@.len() ==> init::is_const_expr(
            (#[trigger] module.globals@[i]).init_expr,
            import_counts(module.imports@).globals + i as nat,
        )
    &&& forall|i: int|
        0 <= i < module.exports@.len() ==> export_exists(#[trigger] module.exports@[i], all)
    &&& forall|i: int|
        0 <= i < module.elements@.len() ==> element_exists(#[trigger] module.elements@[i], all)
    &&& forall|i: int| 0 <= i < module.data@.len() ==> data_exists(#[trigger] module.data@[i], all)
    &&& module.start matches Some(idx) ==> idx < all.funcs
}

/// Values that satisfy the imports are of the kinds that are asked for.
pub proof fn lemma_linked_counts(
    types: Seq<FunctionTypeView>,
    imports: Seq<ImportEntry>,
    vals: Seq<ExternView>,
)
    requires
        link::link_refusal(types, imports, vals) is None,
    ensures
        link::funcs_of(vals).len() == import_counts(imports).funcs,
        link::tables_of(vals).len() == import_counts(imports).tables,
        link::memories_of(vals).len() == import_counts(imports).memories,
        link::globals_of(vals).len() == import_counts(imports).globals,
    decreases imports.len(),
{
    if imports.len() > 0 {
        let checks = link::import_checks(types, imports, vals);
        assert(checks.drop_last() =~= link::import_checks(
            types,
            imports.drop_last(),
            vals.drop_last(),
        ));
        assert(error::first_refusal(checks.drop_last()) is None);
        assert(checks.last() is None);
        lemma_linked_counts(types, imports.drop_last(), vals.drop_last());
    }
}

/// The sizes of index spaces, as numbers that can be computed with.
#[derive(Clone, Copy)]
struct Sizes {
    funcs: u128,
    tables: u128,
    memories: u128,
    globals: u128,
}

impl Sizes {
    spec fn counts(self) -> Counts {
        Counts {
            funcs: self.funcs as nat,
            tables: self.tables as nat,
            memories: self.memories as nat,
            globals: self.globals as nat,
        }
    }
}

/// Counts the imports of each kind.
fn count_imports(imports: &Vec<ImportEntry>) -> (sizes: Sizes)
    ensures
        sizes.counts() == import_counts(imports@),
        sizes.funcs <= usize::MAX,
        sizes.tables <= usize::MAX,
        sizes.memories <= usize::MAX,
        sizes.globals <= usize::MAX,
{
    let mut sizes = Sizes { funcs: 0, tables: 0, memories: 0, globals: 0 };
    let mut i: usize = 0;
    while i < imports.len()
        invariant
            i <= imports@.len(),
            sizes.counts() == import_counts(imports@.take(i as int)),
            sizes.funcs <= i,
            sizes.tables <= i,
            sizes.memories <= i,
            sizes.globals <= i,
        decreases imports@.len() - i,
    {
        match &imports[i].entry {
            External::Function(_) => {
                sizes.funcs = sizes.funcs + 1;
            },
            External::Table(_) => {
                sizes.tables = sizes.tables + 1;
            },
            External::Memory(_) => {
                sizes.memories = sizes.memories + 1;
            },
            External::Global(_) => {
                sizes.globals = sizes.globals + 1;
            },
        }
        assert(imports@.take(i + 1).drop_last() =~= imports@.take(i as int));
        i += 1;
    }
    assert(imports@.take(i as int) =~= imports@);
    sizes
}

/// Tells whether each function of a module has a type and an entry in the table of labels.
fn check_funcs(module: &Module, aux: &ModuleAuxData) -> (ok: bool)
    ensures
        ok == {
            &&& link::import_types_exist(module.imports@, module.types@.len())
            &&& module.functions@.len() == module.bodies@.len()
            &&& forall|i: int|
                0 <= i < module.functions@.len() ==> #[trigger] module.functions@[i]
                    < module.types@.len()
            &&& forall|i: usize|
                i < module.functions@.len() ==> #[trigger] aux.labels@.contains_key(i)
        },
{
    broadcast use vstd::std_specs::hash::group_hash_axioms;

    let mut i: usize = 0;
    while i < module.imports.len()
        invariant
            i <= module.imports@.len(),
            forall|j: int|
                0 <= j < i ==> (#[trigger] module.imports@[j].entry matches External::Function(idx)
                    ==> idx < module.types@.len()),
        decreases module.imports@.len() - i,
    {
        if let External::Function(idx) = module.imports[i].entry {
            if idx as usize >= module.types.len() {
                assert(module.imports@[i as int].entry == External::Function(idx));
                return false;
            }
        }
        i += 1;
    }
    if module.functions.len() != module.bodies.len() {
        return false;
    }
    let mut k: usize = 0;
    while k < module.functions.len()
        invariant
            k <= module.functions@.len(),
            forall|j: int|
                0 <= j < k ==> #[trigger] module.functions@[j] < module.types@.len(),
            forall|j: usize| j < k ==> #[trigger] aux.labels@.contains_key(j),
        decreases module.functions@.len() - k,
    {
        if module.functions[k] as usize >= module.types.len() {
            return false;
        }
        if !aux.labels.contains_key(&k) {
            return false;
        }
        k += 1;
    }
    true
}

/// Tells whether everything that a module refers to exists, and there are labels for each function
/// that it defines.
pub fn check_valid(module: &Module, aux: &ModuleAuxData) -> (ok: bool)
    ensures
        ok == is_valid(*module, aux.labels@),
{
    if !check_funcs(module, aux) {
        return false;
    }
    let imported = count_imports(&module.imports);
    let all = Sizes {
        funcs: imported.funcs + module.functions.len() as u128,
        tables: imported.tables + module.tables.len() as u128,
        memories: imported.memories + module.memories.len() as u128,
        globals: imported.globals + module.globals.len() as u128,
    };
    assert(all.counts() == counts(*module));
    let mut i: usize = 0;
    while i < module.globals.len()
        invariant
            imported.counts() == import_counts(module.imports@),
            imported.globals <= usize::MAX,
            i <= module.globals@.len(),
            forall|j: int|
                0 <= j < i ==> init::is_const_expr(
                    (#[trigger] module.globals@[j]).init_expr,
                    import_counts(module.imports@).globals + j as nat,
                ),
        decreases module.globals@.len() - i,
    {
        if !check_const_expr(&module.globals[i].init_expr, imported.globals + i as u128) {
            return false;
        }
        i += 1;
    }
    check_indices(module, all)
}

/// Tells whether exports, segments and the start function refer to what exists.
fn check_indices(module: &Module, all: Sizes) -> (ok: bool)
    ensures
        ok == {
            &&& forall|i: int|
                0 <= i < module.exports@.len() ==> export_exists(
                    #[trigger] module.exports@[i],
                    all.counts(),
                )
            &&& forall|i: int|
                0 <= i < module.elements@.len() ==> element_exists(
                    #[trigger] module.elements@[i],
                    all.counts(),
                )
            &&& forall|i: int|
                0 <= i < module.data@.len() ==> data_exists(#[trigger] module.data@[i], all.counts())
            &&& module.start matches Some(idx) ==> idx < all.counts().funcs
        },
{
    let mut i: usize = 0;
    while i < module.exports.len()
        invariant
            i <= module.exports@.len(),
            forall|j: int|
                0 <= j < i ==> export_exists(#[trigger] module.exports@[j], all.counts()),
        decreases module.exports@.len() - i,
    {
        let exists_here = match module.exports[i].internal {
            Internal::Function(idx) => (idx as u128) < all.funcs,
            Internal::Table(idx) => (idx as u128) < all.tables,
            Internal::Memory(idx) => (idx as u128) < all.memories,
            Internal::Global(idx) => (idx as u128) < all.globals,
        };
        if !exists_here {
            assert(!export_exists(module.exports@[i as int], all.counts()));
            return false;
        }
        i += 1;
    }
    let mut k: usize = 0;
    while k < module.elements.len()
        invariant
            k <= module.elements@.len(),
            forall|j: int|
                0 <= j < k ==> element_exists(#[trigger] module.elements@[j], all.counts()),
        decreases module.elements@.len() - k,
    {
        if !check_element(&module.elements[k], all) {
            return false;
        }
        k += 1;
    }
    let mut n: usize = 0;
    while n < module.data.len()
        invariant
            n <= module.data@.len(),
            forall|j: int| 0 <= j < n ==> data_exists(#[trigger] module.data@[j], all.counts()),
        decreases module.data@.len() - n,
    {
        if all.memories <= DEFAULT_MEMORY_INDEX as u128 || !check_const_expr(
            &module.data[n].offset,
            all.globals,
        ) {
            assert(!data_exists(module.data@[n as int], all.counts()));
            return false;
        }
        n += 1;
    }
    match module.start {
        Some(idx) => (idx as u128) < all.funcs,
        None => true,
    }
}

/// Tells whether there are a table for an element segment to fill and the functions to fill it
/// with.
fn check_element(segment: &ElementSegment, all: Sizes) -> (ok: bool)
    ensures
        ok == element_exists(*segment, all.counts()),
{
    if all.tables <= DEFAULT_TABLE_INDEX as u128 || !check_const_expr(&segment.offset, all.globals) {
        return false;
    }
    let mut j: usize = 0;
    while j < segment.members.len()
        invariant
            j <= segment.members@.len(),
            forall|n: int| 0 <= n < j ==> #[trigger] segment.members@[n] < all.counts().funcs,
        decreases segment.members@.len() - j,
    {
        if segment.members[j] as u128 >= all.funcs {
            return false;
        }
        j += 1;
    }
    true
}

} // verus!
