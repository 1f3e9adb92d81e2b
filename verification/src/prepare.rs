//! Preparation of a module: what the execution engine is asked to create before the module is
//! instantiated.

use vstd::prelude::*;

use crate::allocate;
use crate::allocate::Prepared;
use crate::error;
use crate::error::Error;
use crate::instance::{ExternVal, ExternView, MemoryInstance, TableInstance};
use crate::link;
use crate::module::{Module, ModuleAuxData};
use crate::ready::check_imports;
use crate::types::{MemoryType, TableType};
use crate::valid;

verus! {

/// What the execution engine is asked to create.
#[derive(Clone, Copy, Debug, PartialEq, Eq, Structural)]
pub enum Creation {
    Table(TableType),
    Memory(MemoryType),
}

/// Everything that a module defines and the execution engine creates: its tables, and then its
/// memories.
pub open spec fn creations(module: Module) -> Seq<Creation> {
    module.tables@.map_values(|t: TableType| Creation::Table(t)) + module.memories@.map_values(
        |t: MemoryType| Creation::Memory(t),
    )
}

/// A module on its way to be instantiated with some values: the execution engine has answered
/// whether it is valid, and is asked to create its tables and memories one by one.
pub struct Preparation<'a> {
    module: &'a Module,
    extern_vals: &'a [ExternVal],
    answers: Prepared,
    refused: bool,
}

/// Model of a [`Preparation`].
pub struct PreparationView {
    pub module: Module,
    pub vals: Seq<ExternView>,
    pub answers: Prepared,
}

impl<'a> View for Preparation<'a> {
    type V = PreparationView;

    closed spec fn view(&self) -> PreparationView {
        PreparationView {
            module: *self.module,
            vals: link::extern_views(self.extern_vals@),
            answers: self.answers,
        }
    }
}

impl PreparationView {
    /// How many answers there are about what was to be created.
    pub open spec fn answered(self) -> nat {
        self.answers.tables@.len() + self.answers.memories@.len()
    }

    /// What is to be created next: what follows the things that there are answers about, unless
    /// the module is refused or something could not be created.
    pub open spec fn pending(self) -> Option<Creation> {
        if allocate::alloc_refusal(self.module, self.vals, self.answers) is None && self.answered()
            < creations(self.module).len() {
            Some(creations(self.module)[self.answered() as int])
        } else {
            None
        }
    }

    /// Whether the answers are about the first tables of the module and, where they are about all
    /// of these, about its first memories.
    pub open spec fn wf(self) -> bool {
        &&& self.answers.validation matches Ok(aux) ==> valid::is_valid(self.module, aux.labels@)
        &&& self.answers.tables@.len() <= self.module.tables@.len()
        &&& self.answers.memories@.len() <= self.module.memories@.len()
        &&& self.answers.memories@.len() > 0 ==> self.answers.tables@.len()
            == self.module.tables@.len()
    }
}

/// A further answer is a failure of its own, or none.
proof fn lemma_further_answer<T>(answers: Seq<Result<T, Error>>, answer: Result<T, Error>)
    requires
        error::first_refusal(allocate::failures(answers)) is None,
    ensures
        error::first_refusal(allocate::failures(answers.push(answer))) is Some <==> answer is Err,
{
    let checks = allocate::failures(answers.push(answer));
    assert(checks.drop_last() =~= allocate::failures(answers));
}

impl<'a> Preparation<'a> {
    /// Whether the preparation is sound, and has taken note of whether the module is refused.
    pub closed spec fn inv(&self) -> bool {
        &&& self@.wf()
        &&& self.refused == (allocate::alloc_refusal(
            self@.module,
            self@.vals,
            self@.answers,
        ) is Some)
    }

    /// A preparation that keeps its invariant has answers about what it asked for.
    pub proof fn lemma_answers_are_in_order(&self)
        requires
            self.inv(),
        ensures
            self@.wf(),
    {
    }

    /// Begins with the answer whether the module is valid.
    pub fn begin(
        module: &'a Module,
        extern_vals: &'a [ExternVal],
        validation: Result<ModuleAuxData, Error>,
    ) -> (preparation: Preparation<'a>)
        requires
            validation matches Ok(aux) ==> valid::is_valid(*module, aux.labels@),
        ensures
            preparation.inv(),
            preparation@.module == *module,
            preparation@.vals == link::extern_views(extern_vals@),
            preparation@.answers.validation == validation,
            preparation@.answers.tables@.len() == 0,
            preparation@.answers.memories@.len() == 0,
    {
        let refused = match &validation {
            Ok(_) => check_imports(module, extern_vals).is_err(),
            Err(_) => true,
        };
        let answers = Prepared { validation, tables: Vec::new(), memories: Vec::new() };
        Preparation { module, extern_vals, answers, refused }
    }

    /// What is to be created next.
    pub fn pending(&self) -> (creation: Option<Creation>)
        requires
            self.inv(),
        ensures
            creation == self@.pending(),
    {
        if self.refused {
            return None;
        }
        let tables: usize = self.answers.tables.len();
        let memories: usize = self.answers.memories.len();
        if tables < self.module.tables.len() {
            Some(Creation::Table(self.module.tables[tables]))
        } else if memories < self.module.memories.len() {
            Some(Creation::Memory(self.module.memories[memories]))
        } else {
            None
        }
    }

    /// Takes note of what came of creating the next table.
    pub fn created_table(&mut self, answer: Result<TableInstance, Error>)
        requires
            old(self).inv(),
            old(self)@.pending() matches Some(Creation::Table(_)),
        ensures
            final(self).inv(),
            final(self)@.module == old(self)@.module,
            final(self)@.vals == old(self)@.vals,
            final(self)@.answers.validation == old(self)@.answers.validation,
            final(self)@.answers.tables@ == old(self)@.answers.tables@.push(answer),
            final(self)@.answers.memories@ == old(self)@.answers.memories@,
    {
        proof {
            lemma_further_answer(self.answers.tables@, answer);
        }
        self.refused = answer.is_err();
        self.answers.tables.push(answer);
    }

    /// Takes note of what came of creating the next memory.
    pub fn created_memory(&mut self, answer: Result<MemoryInstance, Error>)
        requires
            old(self).inv(),
            old(self)@.pending() matches Some(Creation::Memory(_)),
        ensures
            final(self).inv(),
            final(self)@.module == old(self)@.module,
            final(self)@.vals == old(self)@.vals,
            final(self)@.answers.validation == old(self)@.answers.validation,
            final(self)@.answers.tables@ == old(self)@.answers.tables@,
            final(self)@.answers.memories@ == old(self)@.answers.memories@.push(answer),
    {
        proof {
            lemma_further_answer(self.answers.memories@, answer);
        }
        self.refused = answer.is_err();
        self.answers.memories.push(answer);
    }

    /// The answers, once nothing more is to be created.
    pub fn finish(self) -> (prepared: Prepared)
        requires
            self.inv(),
            self@.pending() is None,
        ensures
            prepared == self@.answers,
            prepared.is_for(self@.module, self@.vals),
    {
        self.answers
    }
}

} // verus!
