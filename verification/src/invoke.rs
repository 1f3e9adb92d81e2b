//! Invocation of a function: who runs it, and with what.

use std::rc::Rc;

use vstd::pervasive::unreached;
use vstd::prelude::*;

use crate::error::Error;
use crate::func::{FuncInstance, HostFuncId};
use crate::store::Store;
use crate::types::FunctionType;
use crate::value::RuntimeValue;

verus! {

/// How deep the stacks of a call may grow.
#[derive(Clone, Copy, Debug, PartialEq, Eq, Structural)]
pub struct StackLimits {
    pub value_stack: usize,
    pub frame_stack: usize,
}

/// What the interpreter needs to run a function that a module defines.
pub struct FunctionContext {
    pub func: Rc<FuncInstance>,
    pub value_stack_limit: usize,
    pub frame_stack_limit: usize,
    pub func_type: Rc<FunctionType>,
    pub args: Vec<RuntimeValue>,
}

/// A call of a function that a module defines, whose arguments are still to be held against the
/// signature by the execution engine, on a value stack with the limit that the call is to run with.
pub struct PendingCall {
    pub func: Rc<FuncInstance>,
    pub func_type: Rc<FunctionType>,
    pub args: Vec<RuntimeValue>,
    pub limits: StackLimits,
}

/// How far an invocation has come, and what the execution engine is to do next.
pub enum Invocation {
    /// Check the arguments against the signature.
    Prepare(PendingCall),
    /// Run a function that a module defines.
    Run(FunctionContext),
    /// Call a function of the embedder, with the arguments as they are.
    CallHost(HostFuncId, Vec<RuntimeValue>),
    /// Nothing: this is what came of the invocation.
    Done(Result<Option<RuntimeValue>, Error>),
}

impl Invocation {
    /// Goes on, given what came of checking the arguments: where they are refused, nothing is run.
    pub fn prepared(self, checked: Result<Vec<RuntimeValue>, Error>) -> (next: Invocation)
        requires
            self is Prepare,
        ensures
            next == (match checked {
                Ok(args) => Invocation::Run(
                    FunctionContext {
                        func: self->Prepare_0.func,
                        value_stack_limit: self->Prepare_0.limits.value_stack,
                        frame_stack_limit: self->Prepare_0.limits.frame_stack,
                        func_type: self->Prepare_0.func_type,
                        args,
                    },
                ),
                Err(e) => Invocation::Done(Err(e)),
            }),
    {
        match (self, checked) {
            (Invocation::Prepare(call), Ok(args)) => Invocation::Run(
                FunctionContext {
                    func: call.func,
                    value_stack_limit: call.limits.value_stack,
                    frame_stack_limit: call.limits.frame_stack,
                    func_type: call.func_type,
                    args,
                },
            ),
            (Invocation::Prepare(_), Err(e)) => Invocation::Done(Err(e)),
            _ => unreached(),
        }
    }

    /// Goes on, given what came of running the function.
    pub fn returned(self, outcome: Result<Option<RuntimeValue>, Error>) -> (next: Invocation)
        requires
            self is Run || self is CallHost,
        ensures
            next == Invocation::Done(outcome),
    {
        Invocation::Done(outcome)
    }
}

impl Store {
    /// Begins an invocation of `func`: a function that a module defines is run by the interpreter,
    /// once its arguments are checked, on stacks with `limits`, and one that the embedder provides
    /// is called as it is.
    pub fn invoke(
        &mut self,
        func: Rc<FuncInstance>,
        args: Vec<RuntimeValue>,
        limits: StackLimits,
    ) -> (invocation: Invocation)
        ensures
            invocation == (match *func {
                FuncInstance::Internal { func_type, .. } => Invocation::Prepare(
                    PendingCall { func, func_type, args, limits },
                ),
                FuncInstance::Host { host_func, .. } => Invocation::CallHost(host_func, args),
            }),
    {
        match &*func {
            FuncInstance::Internal { func_type, .. } => {
                let func_type = Rc::clone(func_type);
                Invocation::Prepare(
                    PendingCall { func: Rc::clone(&func), func_type, args, limits },
                )
            },
            FuncInstance::Host { host_func, .. } => Invocation::CallHost(*host_func, args),
        }
    }
}

} // verus!
