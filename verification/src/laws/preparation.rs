//! Laws of the preparation of a module.

use vstd::prelude::*;

use crate::allocate;
use crate::allocate::Prepared;
use crate::error;
use crate::error::Error;
use crate::instance::{ExternVal, MemoryInstance, TableInstance};
use crate::link;
use crate::module::{Module, ModuleAuxData};
use crate::prepare::{Creation, Preparation};
use crate::ready::check_imports;

verus! {

/// A preparation begins with the answer of validation and no other.
pub proof fn law_preparation_begins(
    module: &Module,
    vals: &[ExternVal],
    validation: Result<ModuleAuxData, Error>,
    preparation: Preparation<'_>,
)
    requires
        call_ensures(Preparation::begin, (module, vals, validation), preparation),
    ensures
        preparation@.module == *module,
        preparation@.vals.len() == vals@.len(),
        forall|i: int| 0 <= i < vals@.len() ==> #[trigger] preparation@.vals[i] == vals@[i]@,
        preparation@.answers.validation == validation,
        preparation@.answers.tables@.len() == 0,
        preparation@.answers.memories@.len() == 0,
{
}

/// Tables are created first and then memories, each of the type that the module declares for it,
/// in order. Nothing is created for a module that fails validation or is refused for its imports,
/// nor after something could not be created.
pub proof fn law_pending_creation(
    preparation: Preparation<'_>,
    vals: &[ExternVal],
    checked: Result<(), Error>,
    creation: Option<Creation>,
)
    requires
        preparation.inv(),
        preparation@.vals == link::extern_views(vals@),
        preparation@.answers.validation is Ok ==> call_ensures(
            check_imports,
            (&preparation@.module, vals),
            checked,
        ),
        call_ensures(Preparation::pending, (&preparation,), creation),
    ensures
        ({
            let answers = preparation@.answers;
            let module = preparation@.module;
            let refused = answers.validation is Err || checked is Err || (exists|i: int|
                0 <= i < answers.tables@.len() && #[trigger] answers.tables@[i] is Err) || (exists|
                i: int,
            |
                0 <= i < answers.memories@.len() && #[trigger] answers.memories@[i] is Err);
            &&& refused ==> creation is None
            &&& !refused && answers.tables@.len() < module.tables@.len() ==> creation == Some(
                Creation::Table(module.tables@[answers.tables@.len() as int]),
            )
            &&& !refused && answers.tables@.len() == module.tables@.len()
                && answers.memories@.len() < module.memories@.len() ==> creation == Some(
                Creation::Memory(module.memories@[answers.memories@.len() as int]),
            )
            &&& answers.tables@.len() == module.tables@.len() && answers.memories@.len()
                == module.memories@.len() ==> creation is None
            &&& answers.tables@.len() <= module.tables@.len()
            &&& answers.memories@.len() <= module.memories@.len()
        }),
{
    preparation.lemma_answers_are_in_order();
    let answers = preparation@.answers;
    let tables = allocate::failures(answers.tables@);
    let memories = allocate::failures(answers.memories@);
    error::lemma_no_refusal(tables);
    error::lemma_no_refusal(memories);
    assert forall|i: int| 0 <= i < tables.len() implies (#[trigger] answers.tables@[i] is Err
        <==> tables[i] is Some) by {
    }
    assert forall|i: int| 0 <= i < memories.len() implies (#[trigger] answers.memories@[i] is Err
        <==> memories[i] is Some) by {
    }
    if error::first_refusal(tables) is Some {
        let i = choose|i: int| 0 <= i < tables.len() && !(#[trigger] tables[i] is None);
        assert(answers.tables@[i] is Err);
    }
    if error::first_refusal(memories) is Some {
        let i = choose|i: int| 0 <= i < memories.len() && !(#[trigger] memories[i] is None);
        assert(answers.memories@[i] is Err);
    }
}

/// An answer about a table is added to those about tables, and leaves everything else as it is.
pub proof fn law_created_table(
    preparation: &mut Preparation<'_>,
    answer: Result<TableInstance, Error>,
)
    requires
        call_ensures(Preparation::created_table, (preparation, answer), ()),
    ensures
        final(preparation)@.answers.tables@ == old(preparation)@.answers.tables@.push(answer),
        final(preparation)@.answers.memories@ == old(preparation)@.answers.memories@,
        final(preparation)@.answers.validation == old(preparation)@.answers.validation,
        final(preparation)@.module == old(preparation)@.module,
        final(preparation)@.vals == old(preparation)@.vals,
{
}

/// An answer about a memory is added to those about memories, and leaves everything else as it is.
pub proof fn law_created_memory(
    preparation: &mut Preparation<'_>,
    answer: Result<MemoryInstance, Error>,
)
    requires
        call_ensures(Preparation::created_memory, (preparation, answer), ()),
    ensures
        final(preparation)@.answers.memories@ == old(preparation)@.answers.memories@.push(answer),
        final(preparation)@.answers.tables@ == old(preparation)@.answers.tables@,
        final(preparation)@.answers.validation == old(preparation)@.answers.validation,
        final(preparation)@.module == old(preparation)@.module,
        final(preparation)@.vals == old(preparation)@.vals,
{
}

/// A preparation that is finished gives out its answers as they are.
pub proof fn law_finished_preparation(preparation: Preparation<'_>, prepared: Prepared)
    requires
        call_ensures(Preparation::finish, (preparation,), prepared),
    ensures
        prepared == preparation@.answers,
{
}

} // verus!
